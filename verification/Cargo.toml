[package]
name = "highway_node"
version = "0.1.0"
edition = "2021"
publish = false

[dependencies]
bincode = "1.3"
casper-execution-engine = "1"
casper-types = "1"
datasize = "*"
itertools = "*"
num-traits = "0.2"
prometheus = "*"
serde = { version = "1", features = ["derive"] }
tracing = "0.1"
