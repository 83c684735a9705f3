[package]
name = "opus_daemon"
version = "0.1.0"
edition = "2021"
publish = false

[dependencies]
config = "=0.10.1"
crossbeam-channel = "0.3"
notify = "=5.0.0-pre.1"
structopt = "=0.3.26"
