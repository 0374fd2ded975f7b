[package]
name = "keyword_sentiment"
version = "0.1.0"
edition = "2021"
publish = false

[dependencies]
serde_json = "=1.0.154"
sentiment = "=0.1.1"
bytes = "=1.12.1"
dotenv = "=0.15.0"
env_logger = "=0.11.11"
futures = "=0.3.34"
hyper = { version = "=0.14.32", features = ["server", "http1", "tcp"] }
log = "=0.4.34"
plotters = { version = "=0.3.7", default-features = false, features = ["bitmap_backend", "bitmap_encoder", "line_series", "ttf"] }
tokio = { version = "=1.54.1", features = ["rt-multi-thread", "sync", "fs", "io-util"] }
twitter-stream = "=0.13.0"
