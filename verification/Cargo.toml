[package]
name = "mpu6050-async-driver"
version = "0.1.0"
edition = "2021"
publish = false

[dependencies]
embedded-hal-async = "1"
