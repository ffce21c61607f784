[package]
name = "stdecor"
version = "0.1.0"
edition = "2021"
publish = false

[dependencies]
chrono = "0.4"
clap = { version = "4", features = ["derive"] }
color-eyre = "0.6"
lineriver = "*"
polling = "3"
terminal_size = "*"
tokio = { version = "1", default-features = false, features = ["io-util"] }
