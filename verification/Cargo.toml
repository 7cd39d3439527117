[package]
name = "twilight-dispatch"
version = "0.1.0"
edition = "2021"
publish = false

[dependencies]
time = { version = "=0.3.55", features = ["formatting", "parsing"] }
serde = { version = "=1.0.229", features = ["derive"] }
serde_repr = "=0.1.21"
simd-json = "0.13"
redis = { version = "=0.21.8", features = ["tokio-comp"] }
lapin = "=2.5.5"
tokio = { version = "=1.54.1", features = ["full"] }
twilight-gateway = "=0.10.2"
twilight-model = "=0.10.3"
twilight-http = "=0.10.3"
prometheus = "=0.13.4"
hyper = { version = "=0.14.32", features = ["server", "http1", "tcp", "runtime"] }
lazy_static = "=1.5.1"
dotenv = "=0.15.0"
tracing = "=0.1.44"
tracing-subscriber = "=0.3.23"
futures-util = "=0.3.34"
