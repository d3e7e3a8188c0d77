[package]
name = "async_ffmpeg_sidecar"
version = "0.1.0"
edition = "2021"
publish = false

[dependencies]
anyhow = "*"
tokio = { version = "*", features = ["full"] }
futures = "*"
futures-util = "*"
reqwest = { version = "*", default-features = false, features = ["stream"] }
async_zip = "*"
async-compression = { version = "*", features = ["tokio", "xz"] }
tokio-tar = "*"
tokio-util = { version = "*", features = ["compat"] }
sanitize-filename = "*"
