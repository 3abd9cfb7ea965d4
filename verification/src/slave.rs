//! # Serial Peripheral Interface - Slave Mode
//!
//! In this mode, the SPI acts as slave and transfers data with its master when its CS is asserted.
//! The driver is full-duplex on one data line each way, does single transfers, and can only be
//! used with DMA: see [`Spi::with_dma`].

pub mod dma;
pub mod start;

use crate::effect::{Effect, EffectQueue};
use crate::gpio::Pin;
use crate::info::{mode_supports_dma, Info, Instance};
use crate::register::FieldValue;
use crate::spi::{AnySpi, Blocking, DriverMode, Mode};
use crate::system::{Peripheral, PeripheralGuard};
use std::marker::PhantomData;
use vstd::prelude::*;

verus! {

/// SPI peripheral driver.
pub struct Spi<Dm: DriverMode> {
    spi: AnySpi,
    data_mode: Mode,
    _mode: PhantomData<Dm>,
    guard: PeripheralGuard,
    queue: EffectQueue,
}

/// What a driver is made of.
#[verifier::ext_equal]
pub struct SpiView {
    /// The controller.
    pub spi: AnySpi,
    /// The SPI mode.
    pub mode: Mode,
    /// The peripheral that the driver keeps powered.
    pub guarded: Peripheral,
    /// What the driver has done and nobody has taken yet.
    pub effects: Seq<Effect<Seq<FieldValue>>>,
}

/// A pin assigned to one of the driver's signals.
pub enum Assignment {
    Sck(Pin),
    Mosi(Pin),
    Miso(Pin),
    Cs(Pin),
}

impl SpiView {
    /// The data describing the controller.
    pub open spec fn info(self) -> Info {
        crate::info::spec_info(self.spi)
    }

    /// The driver keeps its own controller powered.
    pub open spec fn wf(self) -> bool {
        self.guarded == self.info().peripheral
    }

    /// The same driver after some more effects.
    pub open spec fn then_effects(self, effects: Seq<Effect<Seq<FieldValue>>>) -> SpiView {
        SpiView { effects: self.effects + effects, ..self }
    }
}

impl Info {
    /// Taking the clock from a pin.
    pub open spec fn sck_effects(self, pin: Pin) -> Seq<Effect<Seq<FieldValue>>> {
        seq![
            Effect::EnableInput { pin, enable: true },
            Effect::ConnectInput { signal: self.sclk, pin },
        ]
    }

    /// Taking the master's data from a pin.
    pub open spec fn mosi_effects(self, pin: Pin) -> Seq<Effect<Seq<FieldValue>>> {
        seq![
            Effect::EnableInput { pin, enable: true },
            Effect::ConnectInput { signal: self.mosi, pin },
        ]
    }

    /// Giving data to the master on a pin.
    pub open spec fn miso_effects(self, pin: Pin) -> Seq<Effect<Seq<FieldValue>>> {
        seq![
            Effect::SetToPushPullOutput { pin },
            Effect::ConnectOutput { signal: self.miso, pin },
        ]
    }

    /// Taking the chip select from a pin.
    pub open spec fn cs_effects(self, pin: Pin) -> Seq<Effect<Seq<FieldValue>>> {
        seq![
            Effect::EnableInput { pin, enable: true },
            Effect::ConnectInput { signal: self.cs, pin },
        ]
    }

    /// Assigning a pin to a signal.
    pub open spec fn assignment_effects(self, assignment: Assignment) -> Seq<
        Effect<Seq<FieldValue>>,
    > {
        match assignment {
            Assignment::Sck(pin) => self.sck_effects(pin),
            Assignment::Mosi(pin) => self.mosi_effects(pin),
            Assignment::Miso(pin) => self.miso_effects(pin),
            Assignment::Cs(pin) => self.cs_effects(pin),
        }
    }

    /// Assigning pins one after the other.
    pub open spec fn assignments_effects(self, assignments: Seq<Assignment>) -> Seq<
        Effect<Seq<FieldValue>>,
    >
        decreases assignments.len(),
    {
        if assignments.len() == 0 {
            seq![]
        } else {
            self.assignments_effects(assignments.drop_last()) + self.assignment_effects(
                assignments.last(),
            )
        }
    }

    /// Making a driver: power, the controller's registers, and no pins.
    pub open spec fn new_effects(self, mode: Mode) -> Seq<Effect<Seq<FieldValue>>> {
        seq![Effect::AcquireGuard(self.peripheral)] + self.init_effects() + self.data_mode_effects(
            mode,
        ) + self.mosi_effects(Pin::NoPin) + self.miso_effects(Pin::NoPin) + self.sck_effects(
            Pin::NoPin,
        ) + self.cs_effects(Pin::NoPin)
    }
}

impl<Dm: DriverMode> View for Spi<Dm> {
    type V = SpiView;

    closed spec fn view(&self) -> SpiView {
        SpiView {
            spi: self.spi,
            mode: self.data_mode,
            guarded: self.guard.peripheral(),
            effects: self.queue@,
        }
    }
}

impl<Dm: DriverMode> Spi<Dm> {
    /// Hands out what the driver has done since this was last called, in order.
    pub fn take_effects(&mut self) -> (effects: Vec<Effect<Vec<FieldValue>>>)
        ensures
            final(self)@.wf() == old(self)@.wf(),
            crate::effect::views(effects@) == old(self)@.effects,
            final(self)@ == (SpiView { effects: Seq::empty(), ..old(self)@ }),
    {
        self.queue.take()
    }

    /// Whether the driver can be given a DMA channel.
    pub fn supports_dma(&self) -> (supported: bool)
        ensures
            supported == mode_supports_dma(self@.info().chip, self@.mode),
    {
        mode_supports_dma(self.spi.info().chip, self.data_mode)
    }

    /// Ends the driver, which no longer keeps its peripheral powered.
    pub fn release(self) -> (queue: EffectQueue)
        ensures
            queue@ == self@.effects.push(Effect::ReleaseGuard(self@.guarded)),
    {
        let mut queue = self.queue;
        self.guard.release(&mut queue);
        queue
    }
}

impl Spi<Blocking> {
    /// Constructs an SPI instance in 8bit dataframe mode.
    pub fn new<I: Instance>(spi: I, mode: Mode) -> (this: Spi<Blocking>)
        ensures
            this@.spi == spi.as_any(),
            this@.mode == mode,
            this@.wf(),
            this@.effects =~~= this@.info().new_effects(mode),
    {
        let spi = spi.into_any();
        let info = spi.info();
        let mut queue = EffectQueue::new();

        let guard = PeripheralGuard::new(&mut queue, info.peripheral);

        info.init(&mut queue);
        info.set_data_mode(&mut queue, mode, false);

        let this = Spi { spi, data_mode: mode, _mode: PhantomData, guard, queue };

        this.with_mosi(Pin::NoPin).with_miso(Pin::NoPin).with_sck(Pin::NoPin).with_cs(Pin::NoPin)
    }

    /// Assign the SCK (Serial Clock) pin for the SPI instance.
    pub fn with_sck(self, sclk: Pin) -> (this: Self)
        ensures
            this@.wf() == self@.wf(),
            this@ =~~= self@.then_effects(self@.info().sck_effects(sclk)),
    {
        let mut this = self;
        this.queue.push(Effect::EnableInput { pin: sclk, enable: true });
        this.queue.push(Effect::ConnectInput { signal: this.spi.info().sclk, pin: sclk });
        this
    }

    /// Assign the MOSI (Master Out Slave In) pin for the SPI instance.
    pub fn with_mosi(self, mosi: Pin) -> (this: Self)
        ensures
            this@.wf() == self@.wf(),
            this@ =~~= self@.then_effects(self@.info().mosi_effects(mosi)),
    {
        let mut this = self;
        this.queue.push(Effect::EnableInput { pin: mosi, enable: true });
        this.queue.push(Effect::ConnectInput { signal: this.spi.info().mosi, pin: mosi });
        this
    }

    /// Assign the MISO (Master In Slave Out) pin for the SPI instance.
    pub fn with_miso(self, miso: Pin) -> (this: Self)
        ensures
            this@.wf() == self@.wf(),
            this@ =~~= self@.then_effects(self@.info().miso_effects(miso)),
    {
        let mut this = self;
        this.queue.push(Effect::SetToPushPullOutput { pin: miso });
        this.queue.push(Effect::ConnectOutput { signal: this.spi.info().miso, pin: miso });
        this
    }

    /// Assign the CS (Chip Select) pin for the SPI instance.
    pub fn with_cs(self, cs: Pin) -> (this: Self)
        ensures
            this@.wf() == self@.wf(),
            this@ =~~= self@.then_effects(self@.info().cs_effects(cs)),
    {
        let mut this = self;
        this.queue.push(Effect::EnableInput { pin: cs, enable: true });
        this.queue.push(Effect::ConnectInput { signal: this.spi.info().cs, pin: cs });
        this
    }
}

} // verus!
