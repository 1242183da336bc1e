[package]
name = "juniper_http"
version = "0.1.0"
edition = "2021"
publish = false

[dependencies]
futures = "0.3"
serde = "1"
serde_derive = "1"
