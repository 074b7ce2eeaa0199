[package]
name = "webrtc_signalling"
version = "0.1.0"
edition = "2021"
publish = false

[dependencies]
rand = "*"
ws = "*"
