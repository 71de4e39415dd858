[package]
name = "cogfer"
version = "0.1.0"
edition = "2021"
publish = false

[dependencies]
async-stream = "0.3"
async-trait = "0.1"
aws-smithy-eventstream = "0.60"
aws-smithy-types = "1"
base64 = "0.22"
bytes = "1"
futures-util = "0.3"
http = "1"
log = "0.4"
reqwest = { version = "0.13", default-features = false, features = ["rustls-no-provider", "stream"] }
rustls = { version = "0.23", default-features = false, features = ["ring", "std"] }
serde = { version = "1", features = ["derive"] }
serde_json = "1"
tokio = { version = "1", features = ["time", "rt", "macros", "net", "io-util"] }
url = "2"
uuid = { version = "1", features = ["v4"] }
