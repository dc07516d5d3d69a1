[package]
name = "oak_grpc_server"
version = "0.1.0"
edition = "2021"
publish = false

[dependencies]
prost = "0.6"
log = "0.4"
simple_logger = "1"
http = "0.2"
hyper = "0.13"
tonic = { version = "0.2", features = ["tls"] }
tokio = { version = "0.2", features = ["rt-core", "io-driver", "time", "sync"] }
