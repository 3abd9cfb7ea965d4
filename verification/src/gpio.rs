//! Pins, and the controller signals that are routed to them.

use vstd::prelude::*;

verus! {

/// What a signal can be connected to: nothing, or a line known by its number.
#[derive(Clone, Copy, Debug, PartialEq, Eq, Structural)]
pub enum Pin {
    NoPin,
    Line(u32),
}

/// A signal that a controller takes in.
#[allow(non_camel_case_types)]
#[derive(Clone, Copy, Debug, PartialEq, Eq, Structural)]
pub enum InputSignal {
    FSPICLK,
    FSPID,
    FSPICS0,
    HSPICLK,
    HSPID,
    HSPICS0,
    SPI3_CLK,
    SPI3_D,
    SPI3_CS0,
    VSPICLK,
    VSPID,
    VSPICS0,
}

/// A signal that a controller puts out.
#[allow(non_camel_case_types)]
#[derive(Clone, Copy, Debug, PartialEq, Eq, Structural)]
pub enum OutputSignal {
    FSPIQ,
    HSPIQ,
    SPI3_Q,
    VSPIQ,
}

} // verus!
