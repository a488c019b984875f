[package]
name = "gauss"
version = "0.1.0"
edition = "2021"
publish = false

[dependencies]
irc = "=0.11.8"
hyper = "=0.9.18"
kuchiki = "=0.8.1"
rustfm = "=0.1.2"
serde_json = "=1.0.151"
time = "=0.1.45"

[dev-dependencies]
regex = "=1.13.1"
