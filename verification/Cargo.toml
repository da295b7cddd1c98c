[package]
name = "recursion_air"
version = "0.1.0"
edition = "2021"
publish = false

[dependencies]
p3-baby-bear = "*"
p3-field = "*"
hashbrown = "*"
