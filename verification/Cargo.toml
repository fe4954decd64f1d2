[package]
name = "scrabble"
version = "0.1.0"
edition = "2021"
publish = false

[dependencies]
allocator-api2 = "=0.2.21"
hashbrown = "=0.17.1"
macroquad = "=0.4.16"
rand = "=0.8.8"
rust-embed = "=8.13.0"
