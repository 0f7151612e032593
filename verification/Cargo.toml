[package]
name = "neodock"
version = "0.1.0"
edition = "2021"
publish = false

[dependencies]
anyhow = "*"
futures = "*"
gettext-rs = "*"
gio-unix = "*"
glib = "*"
gtk4 = "*"
gtk4-layer-shell = "*"
libadwaita = "*"
declarative = "*"
niri-ipc = "*"
serde = { version = "*", features = ["derive"] }
serde_json = "*"
toml = "*"
unicode-width = "*"
