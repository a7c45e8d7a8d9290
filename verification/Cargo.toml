[package]
name = "biome_traverse"
version = "0.1.0"
edition = "2021"
publish = false

[dependencies]
biome_console = "0.3.1"
biome_diagnostics = "0.3.1"
biome_fs = "0.3.1"
crossbeam = "0.8"
rayon = "1.8"
