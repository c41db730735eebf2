[package]
name = "mad"
version = "0.1.0"
edition = "2021"
publish = false

[dependencies]
tree-sitter = "=0.27.1"
tree-sitter-md = "=0.5.3"
tokio = { version = "=1.54.1", features = ["fs", "time"] }
tracing = "=0.1.44"
tracing-subscriber = "=0.3.23"
maud = "=0.27.0"
icondata = "=0.7.0"
leptos = { version = "=0.8.22", features = ["csr"] }
leptos_icons = "=0.7.1"
serde = { version = "=1.0.229", features = ["derive"] }
serde-wasm-bindgen = "=0.6.5"
wasm-bindgen = "=0.2.129"
