[package]
name = "manatui"
version = "0.1.0"
edition = "2021"
publish = false

[dependencies]
anyhow = "*"
crossterm = "=0.29.0"
hecs = "=0.11.2"
arboard = { version = "=3.7.0", default-features = false }
tachyonfx = "=0.25.2"
