[package]
name = "ofm_viewer"
version = "0.1.0"
edition = "2021"
publish = false

[dependencies]
ureq = "2"
raqote = { version = "0.8", default-features = false }
crossbeam-channel = "0.5"
