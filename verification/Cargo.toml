[package]
name = "poholos"
version = "0.1.0"
edition = "2021"
publish = false

[dependencies]
anyhow = "=1.0.104"
bluer = { version = "=0.17.4", features = ["bluetoothd"] }
btleplug = "=0.11.8"
chrono = "=0.4.45"
clap = { version = "=4.6.7", features = ["derive"] }
dbus = { version = "=0.9.12", features = ["vendored"] }
futures = "=0.3.34"
hashlink = "=0.12.2"
heapless = "=0.8.0"
mimalloc = { version = "=0.1.52", default-features = false }
morse-codec = "=0.4.30"
postcard = "=1.1.3"
rand = "=0.10.3"
serde = { version = "=1.0.229", features = ["derive"] }
socket2 = { version = "=0.6.5", features = ["all"] }
tokio = { version = "=1.54.1", features = ["io-std", "io-util", "macros", "net", "rt-multi-thread", "sync", "time"] }
trouble-host = "=0.8.0"
uuid = "=1.29.0"
