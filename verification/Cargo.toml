[package]
name = "language_reporting"
version = "0.1.0"
edition = "2021"
publish = false

[dependencies]
termcolor = "1"
log = "0.4"
serde = "1"
serde_derive = "1"

[dev-dependencies]
unindent = "0.1"
