[package]
name = "gossip"
version = "0.1.0"
edition = "2021"
publish = false

[dependencies]
anyhow = "1"
async-trait = "0.1"
clap = { version = "4", features = ["derive"] }
crossterm = "*"
log = "0.4"
maelstrom-node = "*"
rand = "0.9"
ratatui = "*"
serde = { version = "1", features = ["derive"] }
tokio = { version = "1", features = ["full"] }
