[package]
name = "stream_bridge"
version = "0.1.0"
edition = "2021"
publish = false

[dependencies]
serde = { version = "=1.0.229", features = ["derive"] }
serde_json = { version = "=1.0.151", features = ["preserve_order"] }
uuid = { version = "=1.27.0", features = ["v4"] }
thiserror = "=2.0.21"
tokio = { version = "=1.53.2", features = ["macros", "rt-multi-thread", "sync", "time"] }
tracing = "=0.1.44"
chrono = "=0.4.45"
color-eyre = "=0.6.5"
config = "=0.15.27"
aws-config = "=1.12.0"
aws-sdk-dynamodb = "=1.130.0"
aws-sdk-kinesis = "=1.125.0"
aws-types = "=1.6.0"
