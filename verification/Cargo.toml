[package]
name = "claudioos"
version = "0.1.0"
edition = "2021"
publish = false

[dependencies]
png = "0.17"
minifb = "0.27"
