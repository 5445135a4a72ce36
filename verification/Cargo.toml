[package]
name = "ironrdp-web"
version = "0.1.0"
edition = "2021"
publish = false

[dependencies]
futures-channel = "=0.3.34"
ironrdp-core = "=0.3.1"
ironrdp-pdu = "=0.11.0"
ironrdp-rdpdr = "=0.9.0"
ironrdp-rdpsnd = "=0.11.0"
ironrdp-svc = "=0.10.0"
js-sys = "=0.3.107"
tracing = "=0.1.44"
wasm-bindgen = "=0.2.130"
