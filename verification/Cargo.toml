[package]
name = "m3u8downloader"
version = "0.1.0"
edition = "2021"
publish = false

[dependencies]
regex = "=1.13.1"
url = "=2.5.8"
reqwest = { version = "=0.12.28", default-features = false, features = ["blocking", "rustls-tls"] }
slint = { version = "=1.18.1", default-features = false, features = ["std", "compat-1-2"] }
rfd = { version = "=0.17.2", default-features = false, features = ["xdg-portal"] }
winsafe = { version = "=0.0.29", features = ["user"] }
