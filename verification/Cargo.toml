[package]
name = "whiteboard"
version = "0.1.0"
edition = "2021"
publish = false

[dependencies]
serde = { version = "1", features = ["derive"] }
serde_json = "1"
wasm-bindgen = "0.2"
web-sys = { version = "0.3", features = [
    "CanvasRenderingContext2d",
    "Document",
    "Element",
    "Event",
    "EventTarget",
    "FontFace",
    "HtmlAnchorElement",
    "HtmlCanvasElement",
    "HtmlElement",
    "KeyboardEvent",
    "MouseEvent",
    "Node",
    "Storage",
    "TextMetrics",
    "Window",
] }
sycamore = "0.8"
gloo-utils = { version = "0.1", features = ["serde"] }
tracing = "0.1"
tracing-wasm = "0.2"
console_error_panic_hook = "0.1"
