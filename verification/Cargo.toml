[package]
name = "keyboard_it"
version = "0.1.0"
edition = "2021"
publish = false

[dependencies]
snow = "0.10"
blake2 = "0.10"
getrandom = "0.3"
serde = { version = "1", features = ["derive"] }
toml = "0.8"
directories = "6"
mdns-sd = "0.13"
socket2 = "0.5"
