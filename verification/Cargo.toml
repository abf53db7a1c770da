[package]
name = "voxel"
version = "0.1.0"
edition = "2021"
publish = false

[dependencies]
thunderdome = "0.6"
hecs = "0.9"
smallvec = "1"
bevy_utils = "0.9"
lz4 = "1"
winit = "0.27"
arboard = "3"
glam = "0.22"
