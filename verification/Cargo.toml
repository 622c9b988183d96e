[package]
name = "cargo_player"
version = "0.1.0"
edition = "2021"
publish = false

[dependencies]
ansi-parser = "=0.8.0"
proc-macro2 = { version = "=1.0.107", features = ["span-locations"] }
strip-ansi-escapes = "=0.1.1"
syn = { version = "=2.0.119", features = ["full"] }
thiserror = "=1.0.69"
