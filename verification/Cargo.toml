[package]
name = "qualified_do"
version = "0.1.0"
edition = "2021"
publish = false

[dependencies]
itertools = "*"
syn = { version = "*", features = ["full"] }
quote = "*"
proc-macro2 = "*"
proptest = { version = "*", default-features = false, features = ["std"] }

[dev-dependencies]
either = "*"
