[package]
name = "openwarp"
version = "0.1.0"
edition = "2021"
publish = false

[dependencies]
anyhow = "=1.0.104"
clap = { version = "=4.6.7", features = ["derive"] }
futures = "=0.1.31"
futures-util = { version = "=0.3.34", features = ["compat"] }
reqwest = { version = "=0.13.5", features = ["json"] }
rocksdb = "=0.25.0"
serde_json = "=1.0.154"
tokio = { version = "=1.54.1", features = ["full"] }
tokio-compat = "=0.1.6"
tokio-io = "=0.1.13"
tokio-pty-process = "=0.4.0"
tokio-stream = "=0.1.19"
wasmtime = { version = "=45.0.3", default-features = false, features = ["cranelift", "runtime", "std"] }

[dev-dependencies]
regex = "=1.13.1"
