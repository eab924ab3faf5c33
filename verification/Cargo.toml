[package]
name = "glassbox"
version = "0.1.0"
edition = "2021"
publish = false

[dependencies]
iris-lib = "*"
egui = "0.33"
egui_extras = { version = "0.33", default-features = false }
env_logger = { version = "0.11", default-features = false }
log = "0.4"
image = { version = "0.25", default-features = false, features = ["png", "jpeg"] }
taglib = "*"
discord-rich-presence = "1.0"
raw-window-handle = "0.6"
wayland-backend = { version = "0.3", features = ["client_system"] }
wayland-client = "0.31"
wayland-protocols-wlr = { version = "0.3", features = ["client"] }
