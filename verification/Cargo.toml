[package]
name = "lambda_web_adapter"
version = "0.1.0"
edition = "2021"
publish = false

[dependencies]
http = "*"
http-body = "*"
hyper = { version = "*", features = ["http1", "http2"] }
hyper-util = { version = "*", features = ["client-legacy", "http1", "http2", "tokio"] }
lambda_http = { version = "*", features = ["pass_through"] }
serde_json = "*"
tokio = { version = "*", features = ["macros", "rt-multi-thread", "net", "time"] }
tokio-retry = "*"
tower = { version = "*", features = ["util"] }
tower-http = { version = "*", features = ["compression-full"] }
tracing = "*"
url = "*"
