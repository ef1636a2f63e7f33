[package]
name = "expect_results"
version = "0.1.0"
edition = "2021"
publish = false

[dependencies]
colored = "2"
