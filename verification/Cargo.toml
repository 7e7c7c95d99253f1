[package]
name = "squads_core"
version = "0.1.0"
edition = "2021"
publish = false

[dependencies]
directories = "=6.0.0"
iced = { version = "=0.14.0", default-features = false, features = ["svg", "image", "x11", "thread-pool"] }
