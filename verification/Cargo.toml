[package]
name = "city_builder"
version = "0.1.0"
edition = "2021"
publish = false

[dependencies]
egui = "=0.21.0"
egui-macroquad = "=0.15.0"
egui-phosphor = "=0.1.0"
egui-toast = "=0.7.0"
macroquad = { version = "=0.3.26", default-features = false }
savefile = "=0.16.5"
savefile-derive = "=0.16.5"
strum = "=0.24.1"
strum_macros = "=0.24.3"
