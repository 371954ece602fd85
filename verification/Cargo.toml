[package]
name = "sentence_stream"
version = "0.1.0"
edition = "2021"
publish = false

[dependencies]
llama-rs = "*"
rand = "0.8"
