[package]
name = "bouclier_bleu"
version = "0.10.1"
edition = "2021"
publish = false

[dependencies]
anyhow = "1"
clap = { version = "4", features = ["derive"] }
libbpf-rs = "*"
rustix = { version = "1", features = ["fs", "net", "process"] }
serde = { version = "1", features = ["derive"] }
serde_json = { version = "1", features = ["preserve_order"] }
sysinfo = "*"
toml = "0.8"
walkdir = "2"
xattr = "1"
