[package]
name = "wasi_runtime"
version = "0.1.0"
edition = "2021"
publish = false

[dependencies]
async-trait = "0.1"
bytes = "1"
thiserror = "2"
tokio = { version = "1", features = ["io-util"] }
wasmtime = "47"
wasmtime-wasi = "47"

[dev-dependencies]
wat = "1"
