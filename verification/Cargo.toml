[package]
name = "storage_codec"
version = "0.1.0"
edition = "2021"
publish = false

[dependencies]
chrono = "0.4"
uuid = "1"
RustyXML = "0.3"
http = "1"
