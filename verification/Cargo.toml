[package]
name = "rawriser"
version = "0.1.0"
edition = "2021"
publish = false

[dependencies]
druid = "*"
image = { version = "*", default-features = false, features = ["jpeg"] }
rawloader = "*"
rayon = "*"
tinyfiledialogs = "*"
