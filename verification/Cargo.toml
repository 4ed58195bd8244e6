[package]
name = "randcache"
version = "0.1.0"
edition = "2021"
publish = false

[dependencies]
hex = "0.4"
wasm-bindgen = "0.2"
web-sys = { version = "0.3", features = ["Window", "Document", "Element", "HtmlCanvasElement", "CanvasRenderingContext2d", "EventTarget", "Event"] }
console_error_panic_hook = "0.1"
