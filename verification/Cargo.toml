[package]
name = "flipper"
version = "0.1.0"
edition = "2021"
publish = false

[dependencies]
anyhow = "1"
bytes = "1"
flate2 = "1"
tokio = { version = "1", features = ["full"] }
tokio-util = { version = "0.7", features = ["codec"] }
tokio-stream = "0.1"
futures-util = { version = "0.3", features = ["sink"] }
clap = "2"
tracing = "0.1"
flume = "0.10"
scrap = "0.5"
eframe = "0.19"
egui_extras = "0.19"
epaint = "0.19"
