[package]
name = "realtime_termgraph"
version = "0.1.0"
edition = "2021"
publish = false

[dependencies]
crossterm = "*"
map-range = "*"
parking_lot = "*"
