[package]
name = "glyphana"
version = "0.1.0"
edition = "2021"
publish = false

[dependencies]
ahash = { version = "0.8", features = ["serde"] }
eframe = { version = "0.32", default-features = false, features = ["default_fonts", "glow", "persistence", "x11"] }
egui = "0.32"
egui_dnd = "0.13"
finl_unicode = "1"
glyph-names = "*"
image = { version = "0.25", default-features = false, features = ["png"] }
rusttype = "0.9"
serde = { version = "1", features = ["derive"] }
stringzilla = "3"
tracing-subscriber = "0.3"
unicode-blocks = "0.1"
unicode-case-mapping = "*"
unicode_names2 = "*"
