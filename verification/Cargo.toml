[package]
name = "glyph_brush"
version = "0.1.0"
edition = "2021"
publish = false

[dependencies]
log = "0.4"
rustc-hash = "1"
rusttype = { version = "0.8", features = ["gpu_cache"] }
