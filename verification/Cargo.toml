[package]
name = "cosmic_term"
version = "0.1.0"
edition = "2021"
publish = false

[dependencies]
alacritty_terminal = "*"
cosmic-text = "*"
env_logger = "*"
fork = "*"
lazy_static = "*"
log = "*"
open = "*"
palette = "*"
paste = "*"
ron = "*"
serde = { version = "*", features = ["derive"] }
shlex = "*"
tokio = { version = "*", features = ["sync"] }
