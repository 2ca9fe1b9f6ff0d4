[package]
name = "obsctl"
version = "0.1.0"
edition = "2021"
publish = false

[dependencies]
anyhow = "1"
base64 = "0.22"
chrono = "0.4"
clap = { version = "4", features = ["derive"] }
colog = "1"
colored = "2"
csv = "1"
dialoguer = "0.11"
dirs = "5"
futures = "0.3"
hmac = "0.12"
indicatif = "0.17"
log = "0.4"
md5 = "0.7"
quick-xml = { version = "0.37", features = ["serialize"] }
reqwest = { version = "0.12", default-features = false }
roxmltree = "0.20"
serde = { version = "1", features = ["derive"] }
sha1 = "0.10"
strsim = "0.11"
tabled = "*"
tokio = { version = "1", features = ["full"] }
