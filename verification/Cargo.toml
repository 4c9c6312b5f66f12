[package]
name = "authsock-filter"
version = "0.1.32"
edition = "2021"
publish = false

[dependencies]
base64 = "0.22"
regex = "1"
globset = "0.4"
sha2 = "0.10"
md-5 = "0.10"
shellexpand = "3"
tokio = { version = "1", features = ["full"] }
clap = { version = "4", features = ["derive", "env"] }
clap_complete = { version = "4", features = ["unstable-dynamic"] }
serde = { version = "1", features = ["derive"] }
serde_json = "1"
toml = "0.8"
chrono = { version = "0.4", features = ["serde"] }
dirs = "6"
anyhow = "1"
tracing = "0.1"
tracing-subscriber = { version = "0.3", features = ["env-filter"] }
reqwest = { version = "0.12", default-features = false, features = ["json", "rustls-tls"] }
plist = "1"
libc = "0.2"
bytes = "1"
scopeguard = "1"
