[package]
name = "emu-term"
version = "0.1.0"
edition = "2021"
publish = false

[dependencies]
ansi_colours = { version = "1", default-features = false }
async-std = "1"
futures = "0.3"
iced = { version = "0.13", default-features = false, features = ["tokio"] }
libc = "0.2"
nix = { version = "0.29", features = ["term", "process"] }
tokio = { version = "1", features = ["full"] }

[dev-dependencies]
nom = "8"
