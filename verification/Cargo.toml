[package]
name = "vault"
version = "0.1.0"
edition = "2021"
publish = false

[dependencies]
aes = "=0.8.4"
arboard = { version = "=3.7.0", default-features = false }
argon2 = "=0.5.3"
base64 = "=0.22.1"
cbc = { version = "=0.1.2", features = ["std"] }
ciborium = "=0.2.2"
clap = { version = "=4.6.7", features = ["derive"] }
dirs = "=6.0.0"
getrandom = "=0.2.17"
hkdf = "=0.12.4"
hmac = "=0.12.1"
linux-keyutils = "=0.2.5"
ml-kem = { version = "=0.2.3", features = ["deterministic"] }
pbkdf2 = "=0.12.2"
region = "=3.0.2"
reqwest = { version = "=0.12.28", default-features = false, features = ["json", "rustls-tls-manual-roots"] }
rsa = "=0.9.10"
rustls = { version = "=0.23.46", default-features = false, features = ["ring", "std", "tls12"] }
serde = { version = "=1.0.229", features = ["derive"] }
serde_json = "=1.0.154"
sha1 = "=0.10.7"
sha2 = "=0.10.9"
subtle = "=2.6.1"
time = { version = "=0.3.55", features = ["formatting"] }
tokio = { version = "=1.54.1", features = ["rt", "macros", "net", "io-util", "sync", "time", "signal"] }
toml = "=0.8.23"
url = "=2.5.8"
uuid = { version = "=1.29.0", features = ["v4"] }
webpki-roots = "=1.0.10"
zeroize = "=1.9.1"
