[package]
name = "mnist_classifier"
version = "0.1.0"
edition = "2021"
publish = false

[dependencies]
image = { version = "=0.25.10", default-features = false, features = ["png"] }
tract-onnx = "=0.21.19"
ort = { version = "=2.0.0-rc.9", default-features = false, features = ["ndarray", "load-dynamic"] }
# Held to the release that ort 2.0.0-rc.9 was written against; a later one is picked otherwise.
ort-sys = { version = "=2.0.0-rc.9", default-features = false }
ndarray = "=0.16.1"
# Used by tract's build; held to a release that builds with Rust 1.95.
kstring = "=2.0.2"
wasm-bindgen = "=0.2.129"
js-sys = "=0.3.106"
web-sys = { version = "=0.3.106", features = ["CanvasRenderingContext2d", "Document", "Element", "Event", "EventTarget", "HtmlCanvasElement", "HtmlElement", "ImageData", "Node", "Window", "Worker", "console"] }
