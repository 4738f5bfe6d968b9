[package]
name = "twitter_stream"
version = "0.1.0"
edition = "2021"
publish = false

[dependencies]
oauth1-request = "*"
flate2 = "*"
