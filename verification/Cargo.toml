[package]
name = "pax"
version = "0.1.0"
edition = "2021"
publish = false

[dependencies]
anyhow = "1"
bluer = { version = "0.17", features = ["bluetoothd"] }
btleplug = "0.11"
clap = { version = "4", features = ["derive"] }
futures = "0.3"
jni = "0.21"
libc = "0.2"
tokio = { version = "1", features = ["rt-multi-thread", "time"] }
uuid = "1"
zbus = { version = "5", default-features = false, features = ["tokio"] }
