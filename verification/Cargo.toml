[package]
name = "csp_filter"
version = "0.1.0"
edition = "2021"
publish = false

[dependencies]
log = "0.4"
percent-encoding = "2"
proxy-wasm = "0.2"
