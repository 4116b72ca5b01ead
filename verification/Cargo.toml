[package]
name = "yoink_app"
version = "0.1.0"
edition = "2021"
publish = false

[dependencies]
simpleicons-rs = "=16.36.0"
serde = { version = "=1.0.229", features = ["derive"] }
leptos = "=0.8.23"
leptos_router = "=0.8.17"
lucide-leptos = "=3.63.0"
leptoaster = "=0.2.3"
wasm-bindgen = "=0.2.130"
wasm-bindgen-futures = "=0.4.80"
web-sys = { version = "=0.3.107", features = ["EventSource", "Storage", "MediaQueryList", "DomRect", "Response", "Location", "KeyboardEvent", "HtmlElement", "DomTokenList", "CssStyleDeclaration"] }
futures = "=0.3.34"
