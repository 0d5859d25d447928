[package]
name = "splitkb"
version = "0.1.0"
edition = "2021"
publish = false

[dependencies]
smallvec = "1"
rp-pico = "0.7"
cortex-m = "0.7"
embedded-hal = "0.2"
fugit = "0.3"
usb-device = "0.2"
usbd-human-interface-device = "0.4"
