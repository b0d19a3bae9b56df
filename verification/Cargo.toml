[package]
name = "procedural_noise"
version = "0.1.0"
edition = "2021"
publish = false

[dependencies]
squirrel_noise5 = "*"
rayon = "*"
wasm-bindgen = "*"
web-sys = { version = "*", features = ["Window", "Document", "Element", "HtmlElement", "HtmlInputElement", "HtmlSelectElement", "HtmlCanvasElement", "CanvasRenderingContext2d", "ImageData", "Event", "EventTarget", "console"] }
