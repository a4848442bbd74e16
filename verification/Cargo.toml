[package]
name = "nucleus"
version = "0.1.0"
edition = "2021"
publish = false

[dependencies]
anyhow = "1"
caps = "0.5"
clap = { version = "4", features = ["derive"] }
flate2 = "1"
libc = "0.2"
libseccomp = "0.3"
nix = "0.26"
reqwest = { version = "0.12", default-features = false, features = ["blocking", "rustls-tls"] }
serde = { version = "1", features = ["derive"] }
serde_json = "1"
tar = "0.4"
xz2 = "0.1"
