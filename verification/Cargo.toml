[package]
name = "elogj"
version = "0.1.0"
edition = "2021"
publish = false

[dependencies]
http = "*"
ascii_converter = "*"
anyhow = "*"
bytes = "*"
clap = { version = "*", features = ["derive"] }
cmd_lib = "*"
env_logger = "*"
log = "*"
serde = { version = "*", features = ["derive"] }
serde_yaml = "*"
tokio = { version = "*", features = ["macros", "rt-multi-thread", "signal"] }
aya = "*"
aya-log = "*"
