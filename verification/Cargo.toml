[package]
name = "battery_logic"
version = "0.1.0"
edition = "2021"
publish = false

[dependencies]
heapless = "0.8"
xy-modbus = "*"
log = "0.4"
