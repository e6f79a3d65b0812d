[package]
name = "carddav_front"
version = "0.1.0"
edition = "2021"
publish = false

[dependencies]
roxmltree = "*"
simple-xml-builder = "*"
actix-web = { version = "3", default-features = false }
tera = { version = "1", default-features = false }
env_logger = "*"
