[package]
name = "morphology"
version = "0.1.0"
edition = "2021"
publish = false

[dependencies]
image = "=0.24.9"
yew = "=0.19.3"
gloo-events = "=0.1.2"
js-sys = "=0.3.106"
wasm-bindgen = "=0.2.129"
web-sys = { version = "=0.3.106", features = ["CanvasRenderingContext2d", "Event", "EventTarget", "File", "FileList", "FileReader", "HtmlCanvasElement", "HtmlInputElement", "ImageData", "InputEvent"] }
log = "=0.4.34"
wasm-logger = "=0.2.0"
