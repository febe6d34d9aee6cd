[package]
name = "insighta"
version = "0.1.0"
edition = "2021"
publish = false

[dependencies]
base64 = "0.22"
hex = "0.4"
sha2 = "0.10"
rand = "*"
urlencoding = "2"
clap = { version = "4", features = ["derive"] }
tokio = { version = "1", features = ["macros", "rt-multi-thread", "net", "io-util", "time"] }
reqwest = { version = "0.12", default-features = false, features = ["json", "rustls-tls"] }
serde = { version = "1", features = ["derive"] }
serde_json = "1"
dirs = "*"
dotenvy = "0.15"
open = "5"
colored = "*"
comfy-table = "7"
indicatif = "*"
