[package]
name = "voxel_flight_simulator"
version = "0.1.0"
edition = "2021"
publish = false

[dependencies]
rand = "=0.10.3"
fast_loaded_dice_roller = { version = "=0.1.8", features = ["rand"] }
dirs = "=7.0.0"
