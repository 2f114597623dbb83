[package]
name = "pomodoro_sni"
version = "0.1.0"
edition = "2021"
publish = false

[dependencies]
async-channel = "*"
chrono = "*"
dialoguer = "*"
etcetera = "*"
indexmap = "*"
lexopt = "*"
log = "*"
rodio = "*"
serde = { version = "*", features = ["derive"] }
simple_logger = "*"
smol = "*"
thiserror = "*"
which = "*"
zbus = "*"
