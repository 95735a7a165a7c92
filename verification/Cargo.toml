[package]
name = "st7789volumio"
version = "0.1.0"
edition = "2021"
publish = false

[dependencies]
rppal = "=0.22.1"
libc = "=0.2.190"
image = "=0.24.9"
imageproc = "=0.23.1"
rusttype = "=0.9.3"
chrono = "=0.4.45"
serde = { version = "=1.0.229", features = ["derive"] }
serde-aux = "=4.7.0"
serde_with = "=3.24.0"
reqwest = { version = "=0.13.5", default-features = false, features = ["blocking", "json"] }
spectrum-analyzer = "=2.0.0"
