[package]
name = "jswag"
version = "0.1.0"
edition = "2021"
publish = false

[dependencies]
docopt = "0.6"
rustc-serialize = "0.3"
term-painter = "0.2"
lazy_static = "0.2"
