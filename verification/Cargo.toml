[package]
name = "bassbox"
version = "0.1.0"
edition = "2021"
publish = false

[dependencies]
dsp-chain = "=0.12.0"
byteorder = "=1.5.0"
minimp3 = "=0.6.1"
parking_lot = "=0.13.0"
serde = { version = "=1.0.229", features = ["derive"] }
jsonrpc-core = "=18.0.0"
jsonrpc-stdio-server = "=18.0.0"
getopts = "=0.2.24"
tokio = { version = "=1.54.1", features = ["rt"] }
cpal = "=0.11.0"
