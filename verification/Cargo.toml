[package]
name = "setpoint_client"
version = "0.1.0"
edition = "2021"
publish = false

[dependencies]
serde = { version = "=1.0.229", default-features = false, features = ["derive"] }
serde-json-core = "=0.7.0"
embassy-net = { version = "=0.9.1", features = ["tcp", "proto-ipv4", "medium-ethernet", "dhcpv4"] }
embassy-time = "=0.5.1"
embedded-io-async = "=0.7.0"
log = "=0.4.34"
embassy-executor = "*"
static_cell = "*"
esp-alloc = "*"
esp-backtrace = "*"
esp-bootloader-esp-idf = "*"
esp-hal = "*"
esp-println = "*"
esp-radio = "*"
esp-rtos = "*"
