[package]
name = "token_refresher"
version = "0.1.0"
edition = "2021"
publish = false

[dependencies]
serde = { version = "*", features = ["derive"] }
serde_json = "*"
serde_urlencoded = "*"
tokio = { version = "*", features = ["macros", "rt-multi-thread", "sync"] }
lambda_runtime = "*"
aws-config = "*"
aws-sdk-ssm = "*"
hyper = { version = "0.14", features = ["client", "http1", "tcp"] }
hyper-rustls = "0.24"
tracing = "*"
tracing-subscriber = "*"
