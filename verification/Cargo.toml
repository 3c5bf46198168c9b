[package]
name = "openssh_sftp_client"
version = "0.1.0"
edition = "2021"
publish = false

[dependencies]
bytes = "=1.12.1"
thunderdome = "=0.6.1"
parking_lot = "=0.13.0"
tokio = { version = "=1.54.1", features = ["sync", "io-util", "rt", "macros"] }
tokio-pipe = "=0.2.12"
tokio-io-utility = "=0.7.6"
