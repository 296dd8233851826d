[package]
name = "script_pipeline"
version = "0.1.0"
edition = "2021"
publish = false

[dependencies]
encoding_rs = "0.8"
chardetng = "0.1"
tempfile = "3"
crossbeam-channel = "0.5"
chrono = "0.4"
