[package]
name = "dice_search"
version = "0.1.0"
edition = "2021"
publish = false

[dependencies]
fastrand = "*"
rand = "*"
rand_isaac = "*"
rand_xoshiro = "*"
rayon = "*"
