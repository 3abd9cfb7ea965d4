[package]
name = "spi_slave"
version = "0.1.0"
edition = "2021"
publish = false

[dependencies]
esp32 = { version = "*", default-features = false }
esp32s2 = { version = "*", default-features = false }
esp32s3 = { version = "*", default-features = false }
esp32c2 = { version = "*", default-features = false }
esp32c3 = { version = "*", default-features = false }
esp32c6 = { version = "*", default-features = false }
esp32h2 = { version = "*", default-features = false }
