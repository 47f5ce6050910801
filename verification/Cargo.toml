[package]
name = "ant_io"
version = "0.1.0"
edition = "2021"
publish = false

[dependencies]
macroquad = { version = "0.4", default-features = false }
nanoserde = "*"
log = "0.4"
