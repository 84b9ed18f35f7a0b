[package]
name = "bughouse_trainer"
version = "0.1.0"
edition = "2021"
publish = false

[dependencies]
shakmaty = { version = "=0.27.3", features = ["variant"] }
encoding_rs = "=0.8.35"
pgn-reader = "=0.26.0"
