[package]
name = "sc2_proxy"
version = "0.1.0"
edition = "2021"
publish = false

[dependencies]
bufstream = "=0.1.4"
crossbeam = "=0.8.5"
dotenv = "=0.15.0"
log = "=0.4.34"
pretty_env_logger = "=0.5.0"
protobuf = "=2.22.1"
sc2-proto = "=0.2.3"
websocket = { version = "=0.27.1", default-features = false, features = ["sync"] }
