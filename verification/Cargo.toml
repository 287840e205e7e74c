[package]
name = "inky_el133"
version = "0.1.0"
edition = "2021"
publish = false

[dependencies]
gpio-cdev = "*"
spidev = "*"
thiserror = "*"
