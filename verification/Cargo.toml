[package]
name = "plaxo_otp"
version = "0.1.0"
edition = "2021"
publish = false

[dependencies]
aes-gcm = "0.10"
argon2 = "0.5"
base64 = "0.22"
rand = "0.8"
sha2 = "0.10"
totp-rs = "5"
urlencoding = "2"
uuid = { version = "1", features = ["v4"] }
zeroize = "1"
serde = { version = "1", features = ["derive"] }
serde_json = "1"
thiserror = "1"
chrono = "0.4"
dirs = "5"
tracing = "0.1"
tracing-subscriber = { version = "0.3", features = ["env-filter"] }
reqwest = { version = "0.11", default-features = false, features = ["json", "multipart", "rustls-tls"] }
arboard = "3"
image = { version = "0.24", default-features = false, features = ["png"] }
auto-launch = "0.5"
