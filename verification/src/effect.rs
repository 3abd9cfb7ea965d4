//! What the driver does to the world, as values in the order in which it happens.

use crate::dma::{DmaPeripheral, DmaRequest, PeripheralDmaChannel};
use crate::gpio::{InputSignal, OutputSignal, Pin};
use crate::register::{Access, FieldValue, Register, RegisterBlock};
use crate::system::Peripheral;
use vstd::prelude::*;

verus! {

/// One thing that the driver has done. `F` is a list of register fields: a `Vec` in executable
/// code, a `Seq` in specifications.
#[allow(inconsistent_fields)]
#[verifier::ext_equal]
#[derive(Debug, PartialEq, Eq)]
pub enum Effect<F> {
    /// A guard on the peripheral is taken. While there is one, the peripheral is powered.
    AcquireGuard(Peripheral),
    /// A guard on the peripheral is given back.
    ReleaseGuard(Peripheral),
    /// A register is written.
    Register(RegisterBlock, Access<F>),
    /// The input stage of a pin is switched.
    EnableInput { pin: Pin, enable: bool },
    /// A pin is made a push-pull output.
    SetToPushPullOutput { pin: Pin },
    /// An input signal of the controller is connected to a pin.
    ConnectInput { signal: InputSignal, pin: Pin },
    /// An output signal of the controller is connected to a pin.
    ConnectOutput { signal: OutputSignal, pin: Pin },
    /// A DMA channel is taken into use.
    OpenChannel(PeripheralDmaChannel),
    /// The DMA engine is made to confirm that the channel can serve the peripheral. If it does not,
    /// nothing more is carried out.
    EnsureCompatible { channel: PeripheralDmaChannel, peripheral: DmaPeripheral },
    /// Something is asked of the DMA engine.
    Dma(DmaRequest),
}

impl View for Effect<Vec<FieldValue>> {
    type V = Effect<Seq<FieldValue>>;

    open spec fn view(&self) -> Effect<Seq<FieldValue>> {
        match *self {
            Effect::AcquireGuard(p) => Effect::AcquireGuard(p),
            Effect::ReleaseGuard(p) => Effect::ReleaseGuard(p),
            Effect::Register(block, access) => Effect::Register(block, access@),
            Effect::EnableInput { pin, enable } => Effect::EnableInput { pin, enable },
            Effect::SetToPushPullOutput { pin } => Effect::SetToPushPullOutput { pin },
            Effect::ConnectInput { signal, pin } => Effect::ConnectInput { signal, pin },
            Effect::ConnectOutput { signal, pin } => Effect::ConnectOutput { signal, pin },
            Effect::OpenChannel(channel) => Effect::OpenChannel(channel),
            Effect::EnsureCompatible { channel, peripheral } => Effect::EnsureCompatible {
                channel,
                peripheral,
            },
            Effect::Dma(request) => Effect::Dma(request),
        }
    }
}

impl Effect<Seq<FieldValue>> {
    /// A whole register written.
    pub open spec fn write_bits(block: RegisterBlock, register: Register, bits: u32) -> Self {
        Effect::Register(block, Access::WriteBits { register, bits })
    }

    /// A register written with its reset value, except for some fields.
    pub open spec fn write(
        block: RegisterBlock,
        register: Register,
        fields: Seq<FieldValue>,
    ) -> Self {
        Effect::Register(block, Access::Write { register, fields })
    }

    /// Some fields of a register changed.
    pub open spec fn modify(
        block: RegisterBlock,
        register: Register,
        fields: Seq<FieldValue>,
    ) -> Self {
        Effect::Register(block, Access::Modify { register, fields })
    }
}

/// The effects of a list, each by its view.
pub open spec fn views(effects: Seq<Effect<Vec<FieldValue>>>) -> Seq<Effect<Seq<FieldValue>>> {
    effects.map_values(|e: Effect<Vec<FieldValue>>| e@)
}

/// The effects that have not been carried out yet, oldest first.
pub struct EffectQueue {
    effects: Vec<Effect<Vec<FieldValue>>>,
}

impl View for EffectQueue {
    type V = Seq<Effect<Seq<FieldValue>>>;

    closed spec fn view(&self) -> Seq<Effect<Seq<FieldValue>>> {
        views(self.effects@)
    }
}

impl EffectQueue {
    /// A queue in which nothing waits.
    pub fn new() -> (queue: EffectQueue)
        ensures
            queue@ == Seq::<Effect<Seq<FieldValue>>>::empty(),
    {
        EffectQueue { effects: Vec::new() }
    }

    /// Adds an effect behind those that wait.
    pub fn push(&mut self, effect: Effect<Vec<FieldValue>>)
        ensures
            final(self)@ == old(self)@.push(effect@),
    {
        self.effects.push(effect);
    }

    /// Hands out what waits, in order, and leaves nothing waiting.
    pub fn take(&mut self) -> (effects: Vec<Effect<Vec<FieldValue>>>)
        ensures
            views(effects@) == old(self)@,
            final(self)@ == Seq::<Effect<Seq<FieldValue>>>::empty(),
    {
        let mut effects: Vec<Effect<Vec<FieldValue>>> = Vec::new();
        std::mem::swap(&mut effects, &mut self.effects);
        effects
    }

    /// Writes a whole register.
    pub fn write_bits(&mut self, block: RegisterBlock, register: Register, bits: u32)
        ensures
            final(self)@ == old(self)@.push(Effect::write_bits(block, register, bits)),
    {
        self.push(Effect::Register(block, Access::WriteBits { register, bits }));
    }

    /// Writes a register with its reset value, except for `fields`.
    pub fn write(&mut self, block: RegisterBlock, register: Register, fields: Vec<FieldValue>)
        ensures
            final(self)@ == old(self)@.push(Effect::write(block, register, fields@)),
    {
        self.push(Effect::Register(block, Access::Write { register, fields }));
    }

    /// Changes `fields` of a register.
    pub fn modify(&mut self, block: RegisterBlock, register: Register, fields: Vec<FieldValue>)
        ensures
            final(self)@ == old(self)@.push(Effect::modify(block, register, fields@)),
    {
        self.push(Effect::Register(block, Access::Modify { register, fields }));
    }
}

} // verus!
