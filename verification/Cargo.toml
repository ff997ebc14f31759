[package]
name = "boidcast"
version = "0.1.0"
edition = "2021"
publish = false

[dependencies]
embedded-graphics = "0.8"
boids = "*"
cgmath = "*"
rand = "0.8"
