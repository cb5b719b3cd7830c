[package]
name = "dyrah"
version = "0.1.0"
edition = "2021"
publish = false

[dependencies]
serde = { version = "=1.0.229", features = ["derive"] }
serde_json = "=1.0.154"
bincode = "=1.3.3"
rand = "=0.9.5"
macroquad = { version = "=0.4.16", default-features = false }
macroquad-tiled = "*"
secs = "=0.1.0"
wrym = "=0.1.0"
egor = "=0.10.0"
image = { version = "=0.25.10", default-features = false, features = ["png"] }
shipyard = "=0.11.5"
renet = { version = "=0.0.16", features = ["transport"] }
