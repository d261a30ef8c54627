[package]
name = "adafruit_gfx"
version = "0.1.0"
edition = "2021"
publish = false

[dependencies]
embedded-hal = "1"
fugit = "0.3"
critical-section = "1"
panic-halt = "*"
cortex-m = "0.7"
cortex-m-rt = "0.7"
cortex-m-semihosting = "0.5"
stm32f7xx-hal = { version = "*", features = ["stm32f767"] }
