[package]
name = "rmpeg"
version = "0.1.0"
edition = "2021"
publish = false

[dependencies]
md5 = "=0.8.1"
png = "=0.18.1"
symphonia = "=0.6.1"
opus-decoder = "*"
openh264 = "=0.9.9"
libc = "=0.2.191"
