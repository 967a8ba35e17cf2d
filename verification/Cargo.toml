[package]
name = "pico_oled"
version = "0.1.0"
edition = "2021"
publish = false

[dependencies]
cortex-m-rt = "=0.7.7"
defmt = "=0.3.101"
defmt-rtt = "=0.4.2"
embedded-graphics = "=0.7.1"
embedded-hal = "=0.2.7"
fugit = "=0.3.9"
panic-probe = { version = "=0.3.2", features = ["print-defmt"] }
rp-pico = "=0.7.0"
ssd1306 = "=0.7.1"
tinybmp = "=0.3.3"
