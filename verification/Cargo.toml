[package]
name = "door_engine"
version = "0.1.0"
edition = "2021"
publish = false

[dependencies]
spacetimedb = "1"
log = "0.4"
strum_macros = "0.26"
