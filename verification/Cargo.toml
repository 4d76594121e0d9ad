[package]
name = "synctus"
version = "0.1.0"
edition = "2021"
publish = false

[dependencies]
anyhow = "1"
argon2 = "0.5"
auto-launch = "0.5"
base64 = "0.22"
chacha20poly1305 = "0.10"
data-encoding = "2"
directories = "5"
hkdf = "0.12"
hmac = "0.12"
notify-rust = { version = "=4.11.7", default-features = false, features = ["z"] }
open = "5"
rand = "0.8"
rustls = { version = "0.23", default-features = false, features = ["ring", "std", "tls12", "logging"] }
rustls-pemfile = "2"
rustls-pki-types = "1"
serde = { version = "1", features = ["derive"] }
serde_json = "1"
sha2 = "0.10"
tiny_http = "0.12"
tokio = { version = "1", features = ["rt-multi-thread", "net", "io-util", "sync", "time", "macros", "signal"] }
tokio-rustls = { version = "0.26", default-features = false, features = ["ring", "tls12", "logging"] }
toml = "0.8"
tracing = "0.1"
tracing-subscriber = { version = "0.3", default-features = false, features = ["fmt", "env-filter"] }
ureq = { version = "2", default-features = false, features = ["tls", "json"] }
webpki-roots = "0.26"
x11rb = { version = "0.13", features = ["screensaver"] }
zbus = "5"
