[package]
name = "kv_cli"
version = "0.1.0"
edition = "2021"
publish = false

[dependencies]
aes-gcm = "0.10"
anyhow = "1"
async-trait = "0.1"
base64 = "0.22"
clap = { version = "4", features = ["derive", "env"] }
clap_mangen = "0.2"
dirs = "5"
hkdf = "0.12"
md-5 = "0.10"
qrcode = { version = "0.14", default-features = false }
rand_core = { version = "0.6", features = ["getrandom"] }
reqwest = { version = "0.12", default-features = false, features = ["json", "rustls-tls"] }
rpassword = "7"
serde = { version = "1", features = ["derive"] }
serde_json = "1"
sha2 = "0.10"
tabled = "0.16"
tokio = { version = "1", features = ["rt-multi-thread", "macros", "time"] }
toml = "0.8"
x25519-dalek = { version = "2", features = ["static_secrets"] }
