[package]
name = "skip_bridge"
version = "0.1.0"
edition = "2021"
publish = false

[dependencies]
uuid = { version = "*", features = ["v4"] }
actix-web = "*"
actix-web-lab = "*"
actix-cors = "*"
clap = { version = "*", features = ["derive"] }
env_logger = "*"
futures-util = "*"
libc = "*"
log = "*"
tokio = { version = "*", features = ["rt"] }
