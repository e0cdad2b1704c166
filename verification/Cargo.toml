[package]
name = "gaussian_splat"
version = "0.1.0"
edition = "2021"
publish = false

[dependencies]
bytemuck = "1"
console_error_panic_hook = "0.1"
console_log = "1"
futures-channel = "0.3"
js-sys = "0.3"
log = "0.4"
nalgebra = { version = "0.32", default-features = false, features = ["std"] }
wasm-bindgen = "0.2"
web-sys = { version = "0.3", features = ["console", "Document", "Element", "HtmlCanvasElement", "Window"] }
wgpu = { version = "0.19", default-features = false, features = ["wgsl"] }
wgpu_sort = "0.1"
