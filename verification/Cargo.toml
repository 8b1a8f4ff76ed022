[package]
name = "serial_clock"
version = "0.1.0"
edition = "2021"
publish = false

[dependencies]
critical-section = "1"
embedded-graphics = "0.8"
embedded-hal = "1"
embedded-hal-bus = "0.2"
esp-alloc = "0.3"
esp-backtrace = { version = "0.13", features = ["esp32c3", "panic-handler", "println"] }
esp-hal = { version = "0.17", features = ["esp32c3"] }
esp-println = { version = "0.10", features = ["esp32c3", "log"] }
fugit = "0.3"
log = "0.4"
st7735-lcd = "0.10"
