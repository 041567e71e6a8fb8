[package]
name = "minigolf"
version = "0.1.0"
edition = "2021"
publish = false

[dependencies]
bitflags = "2"
chrono = { version = "0.4", default-features = false, features = ["std"] }
image = { version = "0.24", default-features = false, features = ["png"] }
num-traits = "0.2"
thiserror = "1"
