[package]
name = "selector_signatures"
version = "0.1.0"
edition = "2021"
publish = false

[dependencies]
serde_json = "=1.0.154"
serde = { version = "1", features = ["derive"] }
async-trait = "0.1"
tokio = { version = "1", features = ["rt", "macros"] }
clap = { version = "4", features = ["derive"] }
clap-verbosity-flag = "*"
ethers = { version = "2", default-features = false }
backtrace = "0.3"
colored = "2"
crossterm = "*"
tui = "*"
