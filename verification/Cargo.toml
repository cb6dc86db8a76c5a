[package]
name = "nex"
version = "0.1.0"
edition = "2021"
publish = false

[dependencies]
md-5 = "0.10"
hmac = "0.12"
hex = "0.4"
rand = "0.8"
flate2 = "1"
tokio = { version = "1", features = ["full"] }
bytes = "1"
byteorder = "1"
tracing = "0.1"
tracing-subscriber = "0.3"
anyhow = "1"
thiserror = "1"
serde = { version = "1", features = ["derive"] }
serde_repr = "0.1"
bitflags = "1"
async-trait = "0.1"
futures = "0.3"
parking_lot = "0.12"
