[package]
name = "hpsdr"
version = "0.1.0"
edition = "2021"
publish = false

[dependencies]
num-complex = "0.4"
nusb = "0.2"
serde = { version = "1", features = ["derive"] }
serde_json = "1"
socket2 = { version = "*", features = ["all"] }
sysinfo = "*"
