[package]
name = "hexler"
version = "0.1.0"
edition = "2021"

[dependencies]
chrono = "0.4"
clap = { version = "4", features = ["derive"] }
pager = "0.16"
size = "*"
term_size = "0.3"
thiserror = "1"
