[package]
name = "sea_lantern"
version = "0.1.0"
edition = "2021"
publish = false

[dependencies]
url = "*"
base64 = "*"
rusqlite = { version = "*", features = ["bundled"] }
serde = { version = "*", features = ["derive"] }
serde_json = "*"
reqwest = { version = "*", default-features = false, features = ["blocking", "json", "rustls-tls"] }
mlua = { version = "*", features = ["lua54", "vendored"] }
clap = { version = "*", features = ["derive"] }
zip = { version = "*", default-features = false, features = ["deflate"] }
tar = "*"
flate2 = "*"
sha2 = "*"
uuid = { version = "*", features = ["v4"] }
dirs-next = "*"
opener = "*"
encoding_rs = "*"
