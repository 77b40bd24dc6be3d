[package]
name = "grizld"
version = "0.1.0"
edition = "2021"
publish = false

[dependencies]
num-rational = "=0.4.2"
num-traits = "=0.2.19"
crossbeam-channel = "=0.5.17"
ffmpeg-next = "=8.1.0"
tracing = "=0.1.44"
tracing-subscriber = "=0.3.23"
