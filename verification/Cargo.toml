[package]
name = "ross_eeprom"
version = "0.1.0"
edition = "2021"
publish = false

[dependencies]
eeprom24x = "=0.5.0"
embedded-hal = "=0.2.7"
nb = "=1.1.0"
cortex-m = "=0.6.7"
stm32f1xx-hal-bxcan = { version = "=0.8.0", features = ["stm32f103"] }
