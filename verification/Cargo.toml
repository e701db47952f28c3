[package]
name = "meganlogs"
version = "0.1.0"
edition = "2021"
publish = false

[dependencies]
byteorder = "1"
ncurses = "5"
serde = "1"
serde_derive = "1"
serial = "0.4"
time = "0.1"
toml = "0.4"
