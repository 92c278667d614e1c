[package]
name = "release_links"
version = "0.1.0"
edition = "2021"
publish = false

[dependencies]
gloo-net = "=0.3.1"
log = "=0.4.34"
serde = { version = "=1.0.229", features = ["derive"] }
web-sys = { version = "=0.3.106", features = ["Window", "Navigator"] }
ybc = "=0.4.0"
yew = { version = "=0.20.0", features = ["csr"] }
yew-hooks = "=0.2.0"
