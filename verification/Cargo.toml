[package]
name = "keyforge95"
version = "0.1.0"
edition = "2021"
publish = false

[dependencies]
getrandom = "0.3"
wasm-bindgen = "0.2"
web-sys = { version = "0.3", features = ["Event", "HtmlInputElement", "HtmlSelectElement", "InputEvent"] }
yew = { version = "0.21", features = ["csr"] }
