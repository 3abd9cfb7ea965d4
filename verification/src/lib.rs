//! A driver for the SPI controllers of the ESP32 family in slave mode.
//!
//! The driver does not touch the hardware itself. What it does is a sequence of [`effect::Effect`]
//! values, which whoever holds the hardware carries out in order; where the hardware has to answer,
//! the driver takes the answer and goes on. [`slave::Spi`] sets a controller up,
//! [`slave::dma::SpiDma`] starts transfers and waits for them. [`model`] says what the effects
//! amount to, and [`laws`], [`setup_laws`], [`transfer_laws`], [`start_laws`] and [`driver_laws`]
//! what holds of the driver on that account.

pub mod chip;
pub mod dma;
pub mod driver_laws;
pub mod effect;
pub mod gpio;
pub mod info;
pub mod laws;
pub mod model;
pub mod register;
pub mod setup_laws;
pub mod slave;
pub mod spi;
pub mod start_laws;
pub mod system;
pub mod transfer_laws;
