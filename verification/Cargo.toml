[package]
name = "toolloop"
version = "0.1.0"
edition = "2021"
publish = false

[dependencies]
openai = "*"
tokio = { version = "*", features = ["macros", "rt-multi-thread"] }
argh = "*"
dotenvy = "*"
env_logger = "*"
log = "*"
serde_json = "*"
