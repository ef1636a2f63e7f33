//! The canonical expectation text and the place where it is stored.

use vstd::prelude::*;
use vstd::string::*;

verus! {

/// The character of one decimal digit.
pub open spec fn digit_char(d: int) -> char {
    if d == 0 {
        '0'
    } else if d == 1 {
        '1'
    } else if d == 2 {
        '2'
    } else if d == 3 {
        '3'
    } else if d == 4 {
        '4'
    } else if d == 5 {
        '5'
    } else if d == 6 {
        '6'
    } else if d == 7 {
        '7'
    } else if d == 8 {
        '8'
    } else {
        '9'
    }
}

/// A natural number in decimal, without leading zeros.
pub open spec fn decimal_nat(n: nat) -> Seq<char>
    decreases n,
{
    if n < 10 {
        seq![digit_char(n as int)]
    } else {
        decimal_nat(n / 10).push(digit_char((n % 10) as int))
    }
}

/// An integer in decimal: a minus sign before the digits of a negative one.
pub open spec fn decimal(n: int) -> Seq<char> {
    if n < 0 {
        seq!['-'] + decimal_nat((-n) as nat)
    } else {
        decimal_nat(n as nat)
    }
}

/// The canonical text of a test's outcome: three marked sections, the
/// exit status in decimal on a line of its own, then standard output and
/// standard error as they were captured. Nothing is escaped or trimmed.
pub open spec fn expect_text(status: int, stdout: Seq<char>, stderr: Seq<char>) -> Seq<char> {
    "---CODE---\n"@ + decimal(status) + "\n"@ + "---STDOUT---\n"@ + stdout + "---STDERR---\n"@
        + stderr
}

/// One decimal digit as a string.
fn digit_str(d: u64) -> (s: &'static str)
    requires
        d < 10,
    ensures
        s@ == seq![digit_char(d as int)],
{
    proof {
        reveal_strlit("0");
        reveal_strlit("1");
        reveal_strlit("2");
        reveal_strlit("3");
        reveal_strlit("4");
        reveal_strlit("5");
        reveal_strlit("6");
        reveal_strlit("7");
        reveal_strlit("8");
        reveal_strlit("9");
    }
    let s = if d == 0 {
        "0"
    } else if d == 1 {
        "1"
    } else if d == 2 {
        "2"
    } else if d == 3 {
        "3"
    } else if d == 4 {
        "4"
    } else if d == 5 {
        "5"
    } else if d == 6 {
        "6"
    } else if d == 7 {
        "7"
    } else if d == 8 {
        "8"
    } else {
        "9"
    };
    assert(s@ =~= seq![digit_char(d as int)]);
    s
}

/// Appends the decimal digits of `n` to `buf`.
pub fn push_decimal(buf: &mut String, n: u64)
    ensures
        final(buf)@ == old(buf)@ + decimal_nat(n as nat),
    decreases n,
{
    if n >= 10 {
        push_decimal(buf, n / 10);
    }
    buf.append(digit_str(n % 10));
    assert(final(buf)@ =~= old(buf)@ + decimal_nat(n as nat));
}

/// Renders a test's exit status, standard output and standard error as the
/// canonical expectation text.
pub fn to_expect_string(status: &i32, stdout: &String, stderr: &String) -> (text: String)
    ensures
        text@ == expect_text(*status as int, stdout@, stderr@),
{
    let mut buf = String::new();
    buf.append("---CODE---\n");
    let wide: i64 = *status as i64;
    if wide < 0 {
        proof {
            reveal_strlit("-");
        }
        buf.append("-");
        assert(buf@ =~= "---CODE---\n"@ + seq!['-']);
        push_decimal(&mut buf, (0 - wide) as u64);
    } else {
        push_decimal(&mut buf, wide as u64);
    }
    assert(buf@ =~= "---CODE---\n"@ + decimal(*status as int));
    buf.append("\n");
    buf.append("---STDOUT---\n");
    buf.append(stdout.as_str());
    buf.append("---STDERR---\n");
    buf.append(stderr.as_str());
    buf
}

/// What `std::path::Path::with_extension` returns for a path and an
/// extension, both given as text: the path with the extension of its file
/// name replaced. It is a function of the two texts on one platform.
pub uninterp spec fn path_with_extension(path: Seq<char>, extension: Seq<char>) -> Seq<char>;

/// Whether `text` holds neither a slash nor a backslash.
pub open spec fn has_no_separator(text: Seq<char>) -> bool {
    forall|i: int| 0 <= i < text.len() ==> text[i] != '/' && text[i] != '\\'
}

/// The place of the stored expectation of the test at `path`: the same
/// path with `expect` for its extension.
pub open spec fn expect_path(path: Seq<char>) -> Seq<char> {
    path_with_extension(path, "expect"@)
}

/// `std::path::Path::with_extension`, from text to text. Trusted: the
/// result is what that function returns for the two texts. It panics on an
/// extension that holds a path separator, so such an extension is left out.
#[verifier::external_body]
fn with_extension(path: &str, extension: &str) -> (out: String)
    requires
        has_no_separator(extension@),
    ensures
        out@ == path_with_extension(path@, extension@),
{
    std::path::Path::new(path).with_extension(extension).to_string_lossy().into_owned()
}

/// The path of the file that holds the expectation of the test at `path`.
pub fn expect_file(path: &String) -> (file: String)
    ensures
        file@ == expect_path(path@),
{
    proof {
        reveal_strlit("expect");
    }
    with_extension(path.as_str(), "expect")
}

/// The canonical text is a function of the three captured values: equal
/// inputs give the same text.
pub proof fn lemma_expect_text_deterministic(
    status_a: int,
    stdout_a: Seq<char>,
    stderr_a: Seq<char>,
    status_b: int,
    stdout_b: Seq<char>,
    stderr_b: Seq<char>,
)
    requires
        status_a == status_b,
        stdout_a == stdout_b,
        stderr_a == stderr_b,
    ensures
        expect_text(status_a, stdout_a, stderr_a) == expect_text(status_b, stdout_b, stderr_b),
{
}

} // verus!
