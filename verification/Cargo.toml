[package]
name = "redirect_store"
version = "0.1.0"
edition = "2021"
publish = false

[dependencies]
mimalloc = "0.1"
parking_lot = "0.12"
tiny_http = "0.12"
url = "2"
uuid = { version = "1", features = ["v4"] }
