[package]
name = "testauskameli"
version = "0.1.0"
edition = "2021"
publish = false

[dependencies]
rand = "=0.8.8"
anyhow = "=1.0.104"
async-trait = "=0.1.92"
async-process = "=1.8.1"
dashmap = "=5.5.3"
dotenv = "=0.15.0"
flume = "=0.10.14"
image = { version = "=0.24.9", default-features = false, features = ["png"] }
imageproc = { version = "=0.23.1", default-features = false }
reqwest = { version = "=0.11.27", default-features = false, features = ["rustls-tls"] }
rusttype = "=0.9.3"
serenity = "=0.11.7"
tempfile = "=3.27.0"
tokio = { version = "=1.54.1", features = ["rt-multi-thread", "macros", "io-std", "io-util", "fs", "signal"] }
tracing = "=0.1.44"
tracing-subscriber = "=0.3.23"
which = "=4.4.2"

[dev-dependencies]
regex = "=1.13.1"
