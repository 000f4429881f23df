[package]
name = "satisfactory_map"
version = "0.1.0"
edition = "2021"
publish = false

[dependencies]
egui = { version = "*", default-features = false, features = ["default_fonts"] }
egui_plot = { version = "*", default-features = false }
egui_extras = { version = "*", default-features = false }
eframe = { version = "*", default-features = false, features = ["default_fonts", "glow", "x11"] }
image = { version = "*", default-features = false, features = ["png"] }
itertools = "*"
serde = { version = "1", features = ["derive"] }
serde_json = "1"
serde_urlencoded = "*"
url = "2"
rand = "*"
strum = { version = "*", features = ["derive"] }
log = "0.4"
env_logger = { version = "*", default-features = false }
