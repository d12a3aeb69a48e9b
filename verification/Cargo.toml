[package]
name = "containerd-shim-spin"
version = "0.1.0"
edition = "2021"
publish = false

[dependencies]
anyhow = "1"
containerd-shim-wasm = "0.6"
ctrlc = "3"
futures = "0.3"
log = "0.4"
tokio = { version = "1", features = ["rt", "rt-multi-thread"] }
wasmtime = { version = "=36.0.19", default-features = false, features = ["cranelift", "component-model", "runtime", "std", "wat"] }

[dev-dependencies]
wat = "1"
