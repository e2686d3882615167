[package]
name = "ase_sprite"
version = "0.1.0"
edition = "2021"
publish = false

[dependencies]
bevy_aseprite_reader = "*"
