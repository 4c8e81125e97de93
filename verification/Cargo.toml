[package]
name = "accel_stepper"
version = "0.1.0"
edition = "2021"
publish = false

[dependencies]
embedded-hal = "0.2"
void = "1"
