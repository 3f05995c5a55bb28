[package]
name = "neonia_swarm"
version = "0.1.0"
edition = "2021"
publish = false

[dependencies]
serde = { version = "=1.0.229", features = ["derive"] }
serde_json = "=1.0.154"
uuid = { version = "=1.29.0", features = ["v4"] }
colored = "=3.1.1"
dotenv = "=0.15.0"
tokio = { version = "=1.54.1", features = ["full"] }
reqwest = { version = "=0.13.5", features = ["json"] }
rmcp = { version = "=1.8.0", features = ["client", "transport-streamable-http-client-reqwest"] }
rig-core = { version = "=0.40.0", features = ["rmcp"] }
tracing = "=0.1.44"
tracing-subscriber = { version = "=0.3.23", features = ["env-filter"] }
leptos = { version = "=0.8.23", features = ["csr"] }
wasm-bindgen = "=0.2.130"
js-sys = "=0.3.107"
serde-wasm-bindgen = "=0.6.5"
gloo-timers = { version = "=0.4.0", features = ["futures"] }
