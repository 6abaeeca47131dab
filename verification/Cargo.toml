[package]
name = "camilladsp"
version = "0.1.0"
edition = "2021"
publish = false

[dependencies]
alsa = "*"
nix = "*"
rubato = "*"
serde = { version = "1", features = ["derive"] }

[dev-dependencies]
num-complex = "*"
