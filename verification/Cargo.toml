[package]
name = "wim"
version = "0.1.0"
edition = "2021"
publish = false

[dependencies]
anyhow = "1"
lexical = "6"
libc = "0.2"
log = "0.4"
simple-logging = "*"
serde = "1"
serde_derive = "1"
toml = "0.8"
thiserror = "1"
stackfmt = "*"

[dev-dependencies]
quickcheck = "1"
