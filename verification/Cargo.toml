[package]
name = "webdav_engine"
version = "0.1.0"
edition = "2021"
publish = false

[dependencies]
bytes = "1"
futures = "0.3"
http = "0.2"
http-body = "0.4"
