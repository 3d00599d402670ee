[package]
name = "tile_invalidation"
version = "0.1.0"
edition = "2021"
publish = false

[dependencies]
smallvec = "=1.16.4"
bytes = "=1.12.1"
euclid = "=0.22.14"
