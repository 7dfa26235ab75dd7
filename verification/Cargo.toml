[package]
name = "map_generator"
version = "0.1.0"
edition = "2021"
publish = false

[dependencies]
rand = "=0.8.8"
bon = "2"
dioxus = { version = "0.5", features = ["web"] }
dioxus-logger = "0.5"
strum = { version = "0.26", features = ["derive"] }
web-sys = { version = "0.3", features = ["CanvasRenderingContext2d", "Document", "Element", "HtmlCanvasElement", "ImageData", "Window"] }
