[package]
name = "memetopia"
version = "0.1.0"
edition = "2021"
publish = false

[dependencies]
dioxus = { version = "*", features = ["web", "router"] }
dioxus-free-icons = { version = "*", features = ["bootstrap"] }
dioxus-primitives = "*"
gloo = { version = "*", default-features = false, features = ["utils"] }
js-sys = "*"
strum = { version = "*", features = ["derive"] }
web-sys = { version = "*", features = ["CanvasRenderingContext2d", "Document", "DomRect", "Element", "HtmlAnchorElement", "HtmlCanvasElement", "HtmlElement", "HtmlImageElement", "MouseEvent", "Node", "Window"] }
