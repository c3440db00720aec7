[package]
name = "floatdea"
version = "0.1.0"
edition = "2021"
publish = false

[dependencies]
ulid = "=1.2.1"
sha2 = "=0.10.9"
image = { version = "=0.25.10", default-features = false, features = ["jpeg", "png"] }
pdf-extract = "=0.12.1"
mathjax-svg-rs = "=0.4.0"
serde = { version = "1", features = ["derive"] }
serde_json = "1"
async-trait = "0.1"
tokio = { version = "1", default-features = false, features = ["rt", "sync", "time"] }
log = "0.4"
env_logger = { version = "0.11", default-features = false }
futures-util = { version = "0.3", default-features = false, features = ["std"] }
eframe = { version = "=0.37.0", default-features = false, features = ["glow", "x11"] }
egui = { version = "=0.37.0", default-features = false }
egui_extras = { version = "=0.37.0", default-features = false, features = ["image"] }
egui_commonmark = { version = "=0.26.0", default-features = false }
epaint_default_fonts = { version = "=0.37.0", features = ["monochrome_emoji_fonts"] }
