[package]
name = "storm"
version = "0.3.1"
edition = "2021"
publish = false

[dependencies]
actix = "0.7"
bytes = "0.4"
clap = "2"
fern = "0.5"
futures = "0.1"
gstreamer = "0.14"
log = "0.4"
mac_address = "1"
rand = "0.6"
thread-control = "0.1"
tokio-codec = "0.1"
tokio-core = "0.1"
tokio-io = "0.1"
tokio-signal = "0.2"
tokio-tcp = "0.1"
tokio-timer = "0.2"
