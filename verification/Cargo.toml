[package]
name = "ferris_ecs"
version = "0.1.0"
edition = "2021"
publish = false

[dependencies]
bevy = "=0.5.0"
bevy_webgl2 = "0.5"
