[package]
name = "rtic-stm32"
version = "0.1.0"
edition = "2021"
publish = false

[dependencies]
smart-leds = "0.3"
embedded-graphics = "0.6"
ssd1306 = "0.5"
