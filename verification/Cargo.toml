[package]
name = "keyboard_pins"
version = "0.1.0"
edition = "2021"
publish = false

[dependencies]
msp430g2211 = "=0.1.4"
