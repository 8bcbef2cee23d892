[package]
name = "moosicyak"
version = "0.1.0"
edition = "2021"
publish = false

[dependencies]
url = "=2.5.8"
twilight-model = "0.8"
twilight-http = "0.8"
twilight-gateway = "0.8"
twilight-cache-inmemory = "0.8"
twilight-util = { version = "0.8", features = ["builder"] }
tokio = { version = "=1.54.1", features = ["full"] }
futures = "=0.3.34"
serde = { version = "=1.0.229", features = ["derive"] }
toml = "=0.5.11"
youtube_dl = { version = "=0.7.0", default-features = false }
async-trait = "=0.1.92"
