[package]
name = "arxivcat"
version = "0.1.0"
edition = "2021"
publish = false

[dependencies]
clap = { version = "=4.6.7", features = ["derive"] }
serde = { version = "=1.0.229", features = ["derive"] }
serde_json = "=1.0.154"
tokio = { version = "=1.54.1", features = ["macros", "rt-multi-thread", "process", "io-util", "signal", "time", "sync", "fs"] }
reqwest = { version = "=0.12.28", default-features = false, features = ["rustls-tls", "json", "stream"] }
chrono = "=0.4.45"
glob = "=0.3.4"
dirs = "=5.0.1"
flate2 = "=1.1.10"
tar = "=0.4.46"
tempfile = "=3.27.0"
owo-colors = "=4.4.0"
open = "=5.4.5"
futures-util = "=0.3.34"
lopdf = { version = "=0.46.0", default-features = false }
regex = "1"
