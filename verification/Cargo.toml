[package]
name = "dub-oxide"
version = "0.1.0"
edition = "2021"
publish = false

[dependencies]
byteorder = "1"
hound = "3.5"
num = "0.4"
symphonia = { version = "0.5", default-features = false, features = ["aiff", "wav", "pcm"] }
