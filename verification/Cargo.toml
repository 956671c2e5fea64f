[package]
name = "clantool"
version = "0.3.0"
edition = "2021"
publish = false

[dependencies]
chrono = "0.4"
clap = "2"
log = "0.4"
log4rs = "1"
sendmail = "*"
serde = { version = "1", features = ["derive"] }
timer = "0.2"
toml = "0.5"
