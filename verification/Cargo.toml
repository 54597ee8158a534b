[package]
name = "entity_inspector"
version = "0.1.0"
edition = "2021"
publish = false

[dependencies]
bevy = { version = "=0.10.1", default-features = false, features = ["bevy_asset", "bevy_core_pipeline", "bevy_pbr", "bevy_render"] }
bevy-inspector-egui = { version = "0.18", default-features = false }
bevy-trait-query = "0.2"

[dev-dependencies]
glam = "=0.23.0"
