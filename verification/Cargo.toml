[package]
name = "neatkube"
version = "0.1.0"
edition = "2021"
publish = false

[dependencies]
base64 = "*"
clap = { version = "4", features = ["derive"] }
dewey = "*"
directories = "*"
indicatif = "*"
nix = "=0.26.4"
reqwest = { version = "*", default-features = false, features = ["blocking", "rustls-tls"] }
serde = { version = "*", features = ["derive"] }
serde_yaml = "*"
tokio = { version = "1", features = ["rt", "rt-multi-thread", "process", "fs", "io-util", "net", "time", "macros"] }
