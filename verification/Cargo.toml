[package]
name = "vestige_sync"
version = "0.1.0"
edition = "2021"
publish = false

[dependencies]
clap = { version = "4", features = ["derive"] }
dirs = "*"
hostname = "*"
whoami = "*"
tokio = { version = "1", features = ["full"] }
notify-debouncer-mini = "*"
