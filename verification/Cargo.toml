[package]
name = "bringup"
version = "0.1.0"
edition = "2021"
publish = false

[dependencies]
embassy-time = "=0.5.1"
embassy-sync = "=0.8.0"
embassy-embedded-hal = "=0.6.0"
embedded-hal = "=1.0.0"
embedded-hal-async = "=1.0.0"
device-driver = "=2.2.0"
defmt = "=1.2.0"
defmt-rtt = "=1.3.1"
panic-probe = { version = "=1.0.0", features = ["print-defmt"] }
cortex-m = "=0.7.10"
static_cell = "=2.1.1"
assign-resources = "=0.5.0"
embedded-graphics = "=0.8.2"
mipidsi = "=0.8.0"
display-interface-spi = "=0.5.0"
embedded-sdmmc = "=0.9.0"
