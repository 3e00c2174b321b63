[package]
name = "leptos_cloudflare"
version = "0.1.0"
edition = "2021"
publish = false

[dependencies]
url = "=2.5.8"
console_error_panic_hook = "=0.1.7"
console_log = "=1.1.0"
futures = "=0.3.34"
lazy_static = "=1.5.1"
leptos = { version = "=0.5.7", features = ["ssr"] }
leptos_integration_utils = "=0.5.7"
leptos_meta = { version = "=0.5.7", features = ["ssr"] }
leptos_router = { version = "=0.5.7", features = ["ssr"] }
log = "=0.4.34"
mime_guess = "=2.0.5"
serde = { version = "=1.0.229", features = ["derive"] }
thiserror = "=1.0.69"
tracing = "=0.1.44"
wasm-bindgen = "=0.2.92"
web-sys = { version = "=0.3.69", features = ["Request", "console"] }
worker = "=0.0.24"
