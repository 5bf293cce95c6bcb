[package]
name = "ipp_printer_app"
version = "0.6.1"
edition = "2021"
publish = false

[dependencies]
ipp = { version = "5", default-features = false }
uuid = { version = "1", features = ["v4"] }
axum = "0.8"
tokio = { version = "1", features = ["rt-multi-thread", "macros", "net", "time", "sync"] }
mdns-sd = "*"
if-addrs = "*"
parking_lot = "0.12"
serde = { version = "1", features = ["derive"] }
serde_json = "1"
log = "0.4"
num-traits = "0.2"
bitflags = "2"
