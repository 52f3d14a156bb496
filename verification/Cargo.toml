[package]
name = "fvpnc"
version = "0.1.0"
edition = "2021"
publish = false

[dependencies]
atty = "0.2"
clap = { version = "4", features = ["derive"] }
csv = "1"
regex = "1"
reqwest = { version = "0.11", features = ["blocking"] }
serde = { version = "1", features = ["derive"] }
sudo = "0.6"
sysinfo = "0.29"
zip = { version = "0.6", default-features = false, features = ["deflate"] }
