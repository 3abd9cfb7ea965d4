//! The chips the driver runs on, and what sets them apart.

use vstd::prelude::*;

verus! {

/// A chip with an SPI controller that can act as a slave.
#[derive(Clone, Copy, Debug, PartialEq, Eq, Structural)]
pub enum Chip {
    Esp32,
    Esp32s2,
    Esp32s3,
    Esp32c2,
    Esp32c3,
    Esp32c6,
    Esp32h2,
}

impl Chip {
    /// Whether each SPI controller has a DMA engine of its own ("PDMA").
    #[verifier::allow_in_spec]
    pub fn has_pdma(self) -> bool
        returns
            (self == Chip::Esp32 || self == Chip::Esp32s2),
    {
        match self {
            Chip::Esp32 | Chip::Esp32s2 => true,
            _ => false,
        }
    }

    /// Whether the peripherals share one general DMA engine ("GDMA").
    #[verifier::allow_in_spec]
    pub fn has_gdma(self) -> bool
        returns
            (self != Chip::Esp32 && self != Chip::Esp32s2),
    {
        match self {
            Chip::Esp32 | Chip::Esp32s2 => false,
            _ => true,
        }
    }

    /// Whether there is an SPI3 controller beside SPI2.
    #[verifier::allow_in_spec]
    pub fn has_spi3(self) -> bool
        returns
            (self == Chip::Esp32 || self == Chip::Esp32s2 || self == Chip::Esp32s3),
    {
        match self {
            Chip::Esp32 | Chip::Esp32s2 | Chip::Esp32s3 => true,
            _ => false,
        }
    }
}

} // verus!
