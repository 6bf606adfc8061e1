[package]
name = "thermometer"
version = "0.1.0"
edition = "2021"
publish = false

[dependencies]
chrono = "0.4"
clap = "2"
find_folder = "0.3"
futures = "0.1"
lazy_static = "1"
slog = "2"
slog-async = "2"
slog-term = "2"
tokio = "0.1"
tokio-codec = "0.1"
tokio-fs = "0.1"
tokio-timer = "0.2"
