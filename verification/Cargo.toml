[package]
name = "pingora_web"
version = "0.1.0"
edition = "2021"
publish = false

[dependencies]
async-trait = "0.1"
bytes = "1"
chrono = { version = "0.4", default-features = false, features = ["std"] }
http = "1"
log = "0.4"
pingora = "*"
pingora-error = "*"
pingora-http = "*"
