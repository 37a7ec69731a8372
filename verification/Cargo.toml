[package]
name = "tdx"
version = "0.2.5"
edition = "2021"
publish = false

[dependencies]
anyhow = "1"
byteorder = "1"
chrono = "0.4"
csv = "1"
encoding_rs = "0.8"
flate2 = "1"
lazy_static = "1"
log = "0.4"
mio = { version = "1", features = ["net", "os-poll"] }
serde = { version = "1", features = ["derive"] }
thiserror = "2"
