# spi_slave

A verified driver for the SPI controllers of the ESP32, ESP32-S2, ESP32-S3, ESP32-C2, ESP32-C3,
ESP32-C6 and ESP32-H2 in slave mode: full duplex, one data line each way, single transfers by DMA.

- `src/` is the driver. It decides every register access, pin connection, power guard and DMA
  request, and hands them out as values in the order in which they are to happen. Each function's
  contract says exactly which.
  - `chip.rs`, `register.rs`, `gpio.rs`, `dma.rs`, `system.rs`, `spi.rs`: the parts of a chip
  - `effect.rs`: what the driver does, as values
  - `info.rs`: the description of a controller and its register work
  - `slave.rs`, `slave/start.rs`, `slave/dma.rs`: the driver, the start of a transfer, DMA
  - `model.rs`, `laws.rs`, `transfer_laws.rs`: a model of the hardware, and what holds of the driver
- `app/` carries the effects out on the chips' registers.
- `tests/` runs the driver on concrete values.

Starting a transfer needs the DMA engine's answers in between: `SpiDma::write`, `read` and
`transfer` begin the start, and `SpiDma::resume` takes each answer. Waiting for a transfer is
`SpiDma::peripheral_wait_dma`, one look at the hardware at a time.
