[package]
name = "inverter"
version = "0.3.0"
edition = "2021"
publish = false

[dependencies]
log = "0.4"
rmodbus = "*"
serialport = { version = "4", default-features = false }
signal-hook = "0.3"
thiserror = "2"
