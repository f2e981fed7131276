[package]
name = "event_producer"
version = "0.1.0"
edition = "2021"
publish = false

[dependencies]
fastrand = "1"
redis = { version = "0.23", features = ["aio", "tokio-comp"] }
rdkafka = "0.28"
tokio = { version = "1", features = ["rt-multi-thread"] }
futures = "0.3"
async-trait = "0.1"
crossbeam-channel = "0.5"
crossbeam-utils = "0.8"
dasp = { version = "0.11", features = ["signal"] }
hyper = { version = "0.14", features = ["server", "http1", "tcp"] }
routerify = "3"
prometheus = "0.13"
lazy_static = "1"
log = "0.4"
pretty_env_logger = "0.4"
config = { version = "0.11", default-features = false, features = ["yaml"] }
serde = { version = "1", features = ["derive"] }
serde_derive = "1"
