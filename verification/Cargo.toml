[package]
name = "loretta"
version = "0.1.0"
edition = "2021"
publish = false

[dependencies]
full_moon = { version = "2", features = ["luau", "lua52", "lua53", "lua54", "luajit", "cfxlua"] }
serde_json = "1"
