//! Terminal styling of report text.

use colored::Colorize;
use vstd::prelude::*;

verus! {

/// The styles that a report uses.
#[derive(Debug, Clone, Copy, PartialEq, Eq)]
pub enum Tint {
    Red,
    Green,
    Yellow,
    Bold,
}

/// The parameter of the escape sequence that switches a style on.
pub open spec fn sgr_code(tint: Tint) -> Seq<char> {
    match tint {
        Tint::Red => "31"@,
        Tint::Green => "32"@,
        Tint::Yellow => "33"@,
        Tint::Bold => "1"@,
    }
}

/// Whether `text` holds the escape sequence that resets all styles.
pub open spec fn has_reset(text: Seq<char>) -> bool {
    exists|i: int| 0 <= i && i + 4 <= text.len() && #[trigger] text.subrange(i, i + 4) == "\x1B[0m"@
}

/// `text` between the escape sequence that switches `tint` on and the one
/// that resets all styles.
pub open spec fn styled(text: Seq<char>, tint: Tint) -> Seq<char> {
    "\x1B["@ + sgr_code(tint) + "m"@ + text + "\x1B[0m"@
}

/// What a styled rendering of `text` can be. Whether styles are emitted is
/// decided by the environment of the process: the rendering is the text
/// itself where they are not, and the text between escape sequences where
/// they are. Where the process switches styles off while a text is being
/// formatted, the opening sequence can be left out. Of a text that itself
/// holds a reset sequence nothing is said.
pub open spec fn is_rendering(out: Seq<char>, text: Seq<char>, tint: Tint) -> bool {
    out == text || out == styled(text, tint) || out == text + "\x1B[0m"@ || has_reset(text)
}

/// `colored::Colorize::red` on a string slice, formatted to a `String`.
/// Trusted: the result is the text itself when `colored` decides not to
/// emit styles, and else the text between `ESC[31m` and `ESC[0m`, of which
/// the first is left out if styles are switched off meanwhile. Nothing is
/// claimed of a text that holds a reset sequence of its own.
#[verifier::external_body]
fn paint_red(text: &str) -> (out: String)
    ensures
        is_rendering(out@, text@, Tint::Red),
{
    text.red().to_string()
}

/// `colored::Colorize::green` on a string slice, formatted to a `String`.
/// Trusted: the result is the text itself when `colored` decides not to
/// emit styles, and else the text between `ESC[32m` and `ESC[0m`, of which
/// the first is left out if styles are switched off meanwhile. Nothing is
/// claimed of a text that holds a reset sequence of its own.
#[verifier::external_body]
fn paint_green(text: &str) -> (out: String)
    ensures
        is_rendering(out@, text@, Tint::Green),
{
    text.green().to_string()
}

/// `colored::Colorize::yellow` on a string slice, formatted to a `String`.
/// Trusted: the result is the text itself when `colored` decides not to
/// emit styles, and else the text between `ESC[33m` and `ESC[0m`, of which
/// the first is left out if styles are switched off meanwhile. Nothing is
/// claimed of a text that holds a reset sequence of its own.
#[verifier::external_body]
fn paint_yellow(text: &str) -> (out: String)
    ensures
        is_rendering(out@, text@, Tint::Yellow),
{
    text.yellow().to_string()
}

/// `colored::Colorize::bold` on a string slice, formatted to a `String`.
/// Trusted: the result is the text itself when `colored` decides not to
/// emit styles, and else the text between `ESC[1m` and `ESC[0m`, of which
/// the first is left out if styles are switched off meanwhile. Nothing is
/// claimed of a text that holds a reset sequence of its own.
#[verifier::external_body]
fn paint_bold(text: &str) -> (out: String)
    ensures
        is_rendering(out@, text@, Tint::Bold),
{
    text.bold().to_string()
}

/// Renders `text` in the style `tint`.
pub fn paint(text: &str, tint: Tint) -> (out: String)
    ensures
        is_rendering(out@, text@, tint),
{
    match tint {
        Tint::Red => paint_red(text),
        Tint::Green => paint_green(text),
        Tint::Yellow => paint_yellow(text),
        Tint::Bold => paint_bold(text),
    }
}

} // verus!
