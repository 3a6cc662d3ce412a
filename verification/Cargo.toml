[package]
name = "wepu"
version = "0.1.0"
edition = "2021"
publish = false

[dependencies]
base64 = "0.22"
console_error_panic_hook = "0.1"
leptos = { version = "0.6", features = ["csr"] }
leptos_router = { version = "0.6", features = ["csr"] }
wasm-bindgen = "0.2"
wasm-bindgen-futures = "0.4"
web-sys = { version = "0.3", features = ["File", "FileList", "HtmlInputElement", "IntersectionObserver", "IntersectionObserverEntry", "KeyboardEvent", "Storage", "Window"] }
