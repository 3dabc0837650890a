[package]
name = "tirc"
version = "0.1.0"
edition = "2021"
publish = false

[dependencies]
object = { version = "0.36", default-features = false, features = ["write"] }
clap = { version = "4", features = ["derive"] }
thiserror = "1"
tracing = "0.1"
tracing-subscriber = "0.3"
