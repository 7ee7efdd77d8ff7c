[package]
name = "markview"
version = "0.1.0"
edition = "2021"
publish = false

[dependencies]
pulldown-cmark = { version = "*", default-features = false, features = ["html"] }
gtk4 = { version = "*", features = ["v4_10"] }
libadwaita = { version = "*", features = ["v1_8"] }
webkit6 = "*"
