[package]
name = "rustplayer"
version = "0.1.0"
edition = "2021"
publish = false

[dependencies]
m3u8-rs = "*"
mp3-duration = "*"
regex = "*"
dirs = "*"
bytes = "*"
reqwest = { version = "*", default-features = false, features = ["blocking"] }
