[package]
name = "i2c_slave"
version = "0.1.0"
edition = "2021"
publish = false

[dependencies]
avr-device = { version = "0.5", default-features = false, features = ["atmega328p", "rt"] }
panic-halt = "0.2"
ufmt = "0.2"
