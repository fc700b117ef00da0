[package]
name = "browse"
version = "0.1.0"
edition = "2021"
publish = false

[dependencies]
serde = { version = "=1.0.229", features = ["derive"] }
serde_json = "=1.0.154"
thiserror = "=2.0.21"
log = "=0.4.35"
pulldown-cmark = "=0.13.6"
arboard = "=3.7.0"
wasmtime = { version = "=46.0.3", default-features = false, features = ["cranelift", "runtime", "std", "wat"] }
