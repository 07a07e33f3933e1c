[package]
name = "looper"
version = "0.1.0"
edition = "2021"
publish = false

[dependencies]
rtrb = "*"
crossbeam = "*"
hound = "*"
rubato = "*"
cpal = "*"
crossterm = "*"
anyhow = "*"
