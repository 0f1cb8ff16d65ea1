[package]
name = "mdviz"
version = "0.4.0"
edition = "2021"
publish = false

[dependencies]
clap = { version = "4.6", features = ["derive"] }
pulldown-cmark = { version = "0.13", default-features = false, features = ["html"] }
