[package]
name = "raycast"
version = "0.1.0"
edition = "2021"
publish = false

[dependencies]
num-bigint = "*"
num-traits = "*"
cgmath = "*"
clap = "*"
rand = "*"
rand_distr = "*"
rusqlite = { version = "*", features = ["bundled"] }
async-std = "*"
async-tungstenite = { version = "*", features = ["async-std-runtime"] }
futures = "*"
tungstenite = "*"
