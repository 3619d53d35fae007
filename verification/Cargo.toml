[package]
name = "m3u8_downloader"
version = "0.1.0"
edition = "2021"
publish = false

[dependencies]
regex = "1"
url = "2"
futures = "0.3"
smol = "2"
async-compat = "0.2"
open = "5"
winsafe = { version = "*", features = ["user"] }
reqwest = { version = "0.12", default-features = false, features = ["stream", "rustls-tls-webpki-roots"] }
rfd = { version = "0.17", default-features = false, features = ["xdg-portal"] }
slint = { version = "~1.15", default-features = false, features = ["compat-1-2", "std"] }
