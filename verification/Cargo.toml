[package]
name = "git_ignore"
version = "0.1.0"
edition = "2021"
publish = false

[dependencies]
crossterm = "*"
itertools = "*"
minreq = { version = "*", features = ["https", "json-using-serde"] }
regex = "*"
serde = { version = "*", features = ["derive"] }
sublime_fuzzy = "*"
