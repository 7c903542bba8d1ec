[package]
name = "minirpc"
version = "0.1.0"
edition = "2021"
publish = false

[dependencies]
anyhow = "=1.0.104"
futures = "=0.3.34"
hyper = { version = "=0.14.32", features = ["full"] }
jsonrpsee = { version = "=0.16.3", features = ["server", "http-client"] }
jsonrpsee-core = "=0.16.3"
tokio = { version = "=1.53.2", features = ["macros", "rt-multi-thread", "time"] }
tower = "=0.4.13"
tower-http = { version = "=0.4.4", features = ["trace"] }
tracing = "=0.1.44"
tracing-subscriber = { version = "=0.3.23", features = ["env-filter"] }
