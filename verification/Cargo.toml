[package]
name = "shc_core"
version = "0.1.0"
edition = "2021"
publish = false

[dependencies]
mime_guess = "*"
reqwest = { version = "*", default-features = false, features = ["json", "stream"] }
tokio = { version = "*", features = ["macros", "rt-multi-thread", "fs", "io-util"] }
clap = "*"
dialoguer = "*"
indicatif = "*"
console = "*"
dirs = "*"
serde = { version = "*", features = ["derive"] }
serde_json = "*"
chrono = "*"
tokio-stream = "*"
tokio-util = { version = "*", features = ["io"] }
async-stream = "*"
zip = { version = "*", default-features = false, features = ["bzip2"] }
