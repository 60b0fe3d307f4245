[package]
name = "mnemonai"
version = "0.1.0"
edition = "2021"
publish = false

[dependencies]
arboard = { version = "3", default-features = false }
chrono = { version = "0.4", default-features = false, features = ["clock", "std"] }
crossterm = "0.28"
home = "0.5"
md5 = "0.7"
ratatui = "0.29"
rayon = "1"
rusqlite = { version = "0.32", features = ["bundled"] }
serde = { version = "1", features = ["derive"] }
serde_json = "1"
