[package]
name = "simpoll"
version = "0.1.0"
edition = "2021"
publish = false

[dependencies]
rand = "0.8"
nickel = "0.11"
rusqlite = "*"
chrono = "0.4"
