[package]
name = "jp2_viewer"
version = "0.1.0"
edition = "2021"
publish = false

[dependencies]
cocoa = "0.26"
objc = "0.2"
objc2 = "0.6"
objc2-app-kit = "0.3"
objc2-foundation = "0.3"
