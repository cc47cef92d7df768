[package]
name = "ctl10n"
version = "0.2.0"
edition = "2021"
publish = false

[dependencies]
quote = "=1.0.47"
toml = "0.9"

[dev-dependencies]
proc-macro2 = "=1.0.107"
syn = { version = "=2.0.119", default-features = false, features = ["parsing"] }
