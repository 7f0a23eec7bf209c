[package]
name = "pironman5"
version = "0.1.0"
edition = "2021"
publish = false

[dependencies]
anyhow = "=1.0.104"
chrono = "=0.4.45"
clap = { version = "=4.6.7", features = ["derive"] }
ctrlc = "=3.5.2"
embedded-graphics = "=0.8.2"
log = "=0.4.35"
palette = "=0.7.7"
rppal = { version = "=0.22.1", features = ["hal"] }
serde_json = "=1.0.154"
smart-leds = "=0.4.0"
ssd1306 = "=0.10.0"
ws2812-spi = "=0.5.1"
