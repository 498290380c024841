[package]
name = "server_client"
version = "0.1.0"
edition = "2021"
publish = false

[dependencies]
crossbeam-channel = "0.5"
avl = "*"
convert_case = "0.4"
syn = { version = "1", features = ["full"] }
quote = "1"
proc-macro2 = "1"
tokio = { version = "1", features = ["sync", "time", "macros", "rt"] }
