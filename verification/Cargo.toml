[package]
name = "chain_sync"
version = "0.1.0"
edition = "2021"
publish = false

[dependencies]
anyhow = "*"
bincode = "=2.0.1"
crossterm = "*"
log = "*"
ratatui = "*"
snap-coin = { version = "=16.1.0", features = ["full-node"] }
