[package]
name = "chat_relay"
version = "0.1.0"
edition = "2021"
publish = false

[dependencies]
aes-gcm = "=0.10.3"
anyhow = "1"
async-trait = "0.1"
actix-cors = "0.7"
actix-web = "4"
base64 = "=0.21.7"
chrono = "=0.4.45"
clap = { version = "4", features = ["derive"] }
convert_case = { version = "=0.6.0", features = ["random"] }
csv = "=1.4.0"
flume = "0.11"
futures = "0.3"
image = { version = "0.24", default-features = false, features = ["png", "jpeg"] }
lazy_static = "1"
prometheus = { version = "0.13", default-features = false }
ring = "=0.16.20"
scopeguard = "1"
serde = { version = "1", features = ["derive"] }
serde_json = "1"
slug = "=0.1.6"
sqlx = { version = "0.7", default-features = false, features = ["runtime-tokio-rustls", "postgres", "uuid", "chrono", "macros"] }
thiserror = "1"
tokio = { version = "1", features = ["full"] }
uuid = { version = "=1.27.0", features = ["v4", "serde"] }

[dev-dependencies]
bincode = "=1.3.3"
