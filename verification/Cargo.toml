[package]
name = "flow"
version = "0.1.0"
edition = "2021"
publish = false

[dependencies]
web-sys = { version = "0.3", features = ["Window", "Document", "Element", "HtmlElement", "Node", "console"] }
