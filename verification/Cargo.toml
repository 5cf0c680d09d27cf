[package]
name = "mythterm"
version = "0.1.0"
edition = "2021"
publish = false

[dependencies]
guillotiere = "=0.6.2"
serde = { version = "=1.0.229", features = ["derive"] }
toml = "*"
dirs-next = "=2.0.0"
anyhow = "=1.0.104"
log = "=0.4.35"
egui = "=0.37.0"
notify = "*"
clap = { version = "4", features = ["derive"] }
env_logger = "*"
