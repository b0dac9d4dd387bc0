[package]
name = "neri_player_desktop"
version = "0.1.0"
edition = "2021"
publish = false

[dependencies]
aes = "=0.8.4"
cbc = "=0.1.2"
base64 = "=0.22.1"
rsa = "=0.9.10"
md-5 = "=0.10.6"
sha1 = "=0.10.7"
sha2 = "=0.10.9"
hex = "=0.4.3"
rand = "=0.8.8"
chrono = "=0.4.45"
flate2 = "=1.1.10"
urlencoding = "=2.1.3"
regex = "1"
prost = "=0.13.5"
serde = { version = "=1.0.229", features = ["derive"] }
serde_json = "=1.0.154"
uuid = { version = "=1.29.0", features = ["v4"] }
whoami = "=1.6.1"
dirs-next = "=2.0.0"
walkdir = "=2.5.0"
lofty = "=0.25.5"
reqwest = { version = "=0.12.28", default-features = false, features = ["json", "cookies", "rustls-tls"] }
tokio = { version = "=1.54.1", features = ["rt-multi-thread", "macros", "fs", "time"] }
