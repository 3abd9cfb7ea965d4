//! What the driver knows of the DMA engine: names for its parts, and what can be asked of it.

use vstd::prelude::*;

verus! {

/// The peripherals that the driver moves data for, as the DMA engine names them.
#[derive(Clone, Copy, Debug, PartialEq, Eq, Structural)]
pub enum DmaPeripheral {
    Spi2,
    Spi3,
}

/// The fault that the DMA engine reported, by the engine's own code.
#[derive(Clone, Copy, Debug, PartialEq, Eq, Structural)]
pub struct DmaError {
    pub code: u32,
}

/// A DMA channel: its number, and the controllers that it can serve.
#[derive(Clone, Copy, Debug, PartialEq, Eq, Structural)]
pub struct PeripheralDmaChannel {
    pub number: u8,
    pub serves_spi2: bool,
    pub serves_spi3: bool,
}

impl PeripheralDmaChannel {
    /// Whether the channel can serve a peripheral.
    #[verifier::allow_in_spec]
    pub fn is_compatible_with(self, peripheral: DmaPeripheral) -> bool
        returns
            (match peripheral {
                DmaPeripheral::Spi2 => self.serves_spi2,
                DmaPeripheral::Spi3 => self.serves_spi3,
            }),
    {
        match peripheral {
            DmaPeripheral::Spi2 => self.serves_spi2,
            DmaPeripheral::Spi3 => self.serves_spi3,
        }
    }
}

/// The receiving half of a DMA channel.
#[derive(Clone, Copy, Debug, PartialEq, Eq, Structural)]
pub struct ChannelRx {
    pub channel: PeripheralDmaChannel,
}

/// The sending half of a DMA channel.
#[derive(Clone, Copy, Debug, PartialEq, Eq, Structural)]
pub struct ChannelTx {
    pub channel: PeripheralDmaChannel,
}

/// A DMA channel, split into its halves.
#[derive(Clone, Copy, Debug, PartialEq, Eq, Structural)]
pub struct Channel {
    pub rx: ChannelRx,
    pub tx: ChannelTx,
}

/// A list of DMA descriptors: where it lies and how many there are.
#[derive(Clone, Copy, Debug, PartialEq, Eq, Structural)]
pub struct DmaDescriptors {
    pub addr: usize,
    pub count: usize,
}

/// The descriptors that one half of a channel works through.
#[derive(Clone, Copy, Debug, PartialEq, Eq, Structural)]
pub struct DescriptorChain {
    pub descriptors: DmaDescriptors,
}

impl DescriptorChain {
    /// A chain over a list of descriptors.
    #[verifier::allow_in_spec]
    pub fn new(descriptors: DmaDescriptors) -> DescriptorChain
        returns
            (DescriptorChain { descriptors }),
    {
        DescriptorChain { descriptors }
    }
}

/// A stretch of memory: where it starts and how many bytes it has.
#[derive(Clone, Copy, Debug, PartialEq, Eq, Structural)]
pub struct Buffer {
    pub addr: usize,
    pub len: usize,
}

impl Buffer {
    /// No memory at all: the null address and no bytes.
    #[verifier::allow_in_spec]
    pub fn null() -> Buffer
        returns
            (Buffer { addr: 0, len: 0 }),
    {
        Buffer { addr: 0, len: 0 }
    }
}

/// What the driver asks of the DMA engine. Each request succeeds or fails with a `DmaError`.
#[derive(Clone, Copy, Debug, PartialEq, Eq, Structural)]
pub enum DmaRequest {
    /// Lay the buffer out over the chain, for receiving into it.
    FillForRx { chain: DescriptorChain, circular: bool, buffer: Buffer },
    /// Lay the buffer out over the chain, for sending from it.
    FillForTx { chain: DescriptorChain, circular: bool, buffer: Buffer },
    /// Make the receiving half ready to work through the chain, without starting it.
    PrepareRx { rx: ChannelRx, peripheral: DmaPeripheral, chain: DescriptorChain },
    /// Make the sending half ready to work through the chain, without starting it.
    PrepareTx { tx: ChannelTx, peripheral: DmaPeripheral, chain: DescriptorChain },
    /// Start the receiving half.
    StartRx { rx: ChannelRx },
    /// Start the sending half.
    StartTx { tx: ChannelTx },
}

} // verus!
