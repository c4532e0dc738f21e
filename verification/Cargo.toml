[package]
name = "reprox"
version = "0.1.0"
edition = "2021"
publish = false

[dependencies]
hyper = { version = "=0.14.32", features = ["server", "client", "http1", "tcp"] }
tokio = { version = "=1.53.2", features = ["rt-multi-thread", "macros", "sync", "net", "time", "io-util"] }
serde = { version = "=1.0.229", features = ["derive"] }
serde_json = "=1.0.151"
