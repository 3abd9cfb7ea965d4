//! The SPI controllers, and what their drivers have in common.

use crate::chip::Chip;
use crate::dma::{DmaError, DmaPeripheral};
use vstd::prelude::*;

verus! {

/// An SPI mode: the clock's idle level and the edge on which data is sampled.
#[derive(Clone, Copy, Debug, PartialEq, Eq, Structural)]
pub enum Mode {
    _0,
    _1,
    _2,
    _3,
}

/// Why a transfer did not start.
#[derive(Clone, Copy, Debug, PartialEq, Eq, Structural)]
pub enum Error {
    /// The DMA engine reported a fault.
    DmaError(DmaError),
    /// A buffer is longer than one transfer can be.
    MaxDmaTransferSizeExceeded,
}

impl vstd::std_specs::convert::FromSpecImpl<DmaError> for Error {
    open spec fn obeys_from_spec() -> bool {
        true
    }

    open spec fn from_spec(value: DmaError) -> Error {
        Error::DmaError(value)
    }
}

impl From<DmaError> for Error {
    fn from(value: DmaError) -> (error: Error) {
        Error::DmaError(value)
    }
}

/// The SPI2 controller of a chip.
#[derive(Debug)]
pub struct SPI2 {
    chip: Chip,
}

impl SPI2 {
    /// The chip that the controller is part of.
    pub closed spec fn spec_chip(&self) -> Chip {
        self.chip
    }

    /// The controller.
    pub fn new(chip: Chip) -> (spi: SPI2)
        ensures
            spi.spec_chip() == chip,
    {
        SPI2 { chip }
    }

    /// The chip that the controller is part of.
    pub fn chip(&self) -> (chip: Chip)
        ensures
            chip == self.spec_chip(),
    {
        self.chip
    }
}

/// The SPI3 controller of a chip that has one.
#[derive(Debug)]
pub struct SPI3 {
    chip: Chip,
}

impl SPI3 {
    #[verifier::type_invariant]
    spec fn exists_on_chip(self) -> bool {
        self.chip.has_spi3()
    }

    /// The chip that the controller is part of.
    pub closed spec fn spec_chip(&self) -> Chip {
        self.chip
    }

    /// The controller, or nothing where the chip has none.
    pub fn new(chip: Chip) -> (spi: Option<SPI3>)
        ensures
            spi is Some <==> chip.has_spi3(),
            spi matches Some(spi) ==> spi.spec_chip() == chip,
    {
        if chip.has_spi3() {
            Some(SPI3 { chip })
        } else {
            None
        }
    }

    /// The chip that the controller is part of.
    pub fn chip(&self) -> (chip: Chip)
        ensures
            chip == self.spec_chip(),
            chip.has_spi3(),
    {
        proof {
            use_type_invariant(self);
        }
        self.chip
    }
}

/// Either SPI controller.
#[derive(Debug)]
pub enum AnySpi {
    Spi2(SPI2),
    Spi3(SPI3),
}

/// A peripheral that the DMA engine can move data for.
pub trait DmaEligible {
    /// The name that the DMA engine has for the peripheral.
    spec fn spec_dma_peripheral(&self) -> DmaPeripheral;

    /// Returns the name that the DMA engine has for the peripheral.
    fn dma_peripheral(&self) -> (peripheral: DmaPeripheral)
        ensures
            peripheral == self.spec_dma_peripheral(),
    ;
}

impl DmaEligible for SPI2 {
    open spec fn spec_dma_peripheral(&self) -> DmaPeripheral {
        DmaPeripheral::Spi2
    }

    fn dma_peripheral(&self) -> (peripheral: DmaPeripheral) {
        DmaPeripheral::Spi2
    }
}

impl DmaEligible for SPI3 {
    open spec fn spec_dma_peripheral(&self) -> DmaPeripheral {
        DmaPeripheral::Spi3
    }

    fn dma_peripheral(&self) -> (peripheral: DmaPeripheral) {
        DmaPeripheral::Spi3
    }
}

impl DmaEligible for AnySpi {
    open spec fn spec_dma_peripheral(&self) -> DmaPeripheral {
        match *self {
            AnySpi::Spi2(spi) => spi.spec_dma_peripheral(),
            AnySpi::Spi3(spi) => spi.spec_dma_peripheral(),
        }
    }

    fn dma_peripheral(&self) -> (peripheral: DmaPeripheral) {
        match self {
            AnySpi::Spi2(spi) => spi.dma_peripheral(),
            AnySpi::Spi3(spi) => spi.dma_peripheral(),
        }
    }
}

/// The way in which a driver waits for the hardware.
pub trait DriverMode {

}

/// Waits by polling.
pub struct Blocking;

/// Waits for an interrupt.
pub struct Async;

impl DriverMode for Blocking {

}

impl DriverMode for Async {

}

} // verus!
