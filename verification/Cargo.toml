[package]
name = "sitescrape"
version = "0.1.0"
edition = "2021"
publish = false

[dependencies]
url = "2"
htmd = "*"
pbkdf2 = "0.12"
hmac = "0.12"
sha1 = "0.10"
aes = "0.8"
cbc = "0.1"
aes-gcm = "0.10"
base64 = "0.22"
serde_json = "1"
serde = { version = "1", features = ["derive"] }
toml = "0.8"
clap = { version = "4", features = ["derive"] }
color-eyre = "0.6"
crossterm = "0.28"
ratatui = "0.29"
tokio = { version = "1", features = ["full"] }
reqwest = { version = "0.12", features = ["cookies"] }
chromiumoxide = "0.8"
futures = "0.3"
async-trait = "0.1"
indicatif = "0.17"
rusqlite = { version = "0.32", features = ["bundled"] }
tempfile = "3"
dirs = "5"
