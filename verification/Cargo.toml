[package]
name = "srs_worker"
version = "0.1.0"
edition = "2021"
publish = false

[dependencies]
serde = { version = "1", features = ["derive"] }
serde_json = "1"
chrono = { version = "0.4", default-features = false, features = ["clock", "std"] }
csv = "1"
ed25519-dalek = "2"
form_urlencoded = "1"
http = "1"
axum = { version = "0.8", default-features = false, features = ["form", "json"] }
worker = { version = "*", features = ["http", "axum"] }
octocrab = { version = "*", default-features = false }
jsonwebtoken = "*"
tower = "0.5"
tower-service = "0.3"
wasm-bindgen = "0.2"
wasm-bindgen-futures = "0.4"
web-sys = { version = "0.3", features = ["Blob", "BlobPropertyBag", "FormData", "Response"] }
js-sys = "0.3"
