[package]
name = "fan-controller"
version = "0.1.0"
edition = "2021"
publish = false

[dependencies]
crc = "=3.4.0"
heapless = "=0.8.0"
serde = { version = "=1.0.229", features = ["derive"] }
serde_json = "=1.0.154"
embedded-io-async = "=0.6.1"
tokio = { version = "=1.54.1", features = ["rt", "rt-multi-thread", "macros", "time", "sync", "net", "io-util", "io-std"] }
serialport = { version = "=4.10.1", default-features = false }
rand = "=0.8.8"
rand_distr = "=0.4.3"
plotlib = "=0.5.1"
