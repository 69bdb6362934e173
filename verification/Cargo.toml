[package]
name = "hostprobe"
version = "0.1.0"
edition = "2021"
publish = false

[dependencies]
nix = { version = "*", features = ["net", "socket", "feature"] }
serde = { version = "*", features = ["derive"] }
actix-web = { version = "*", default-features = false, features = ["macros"] }
