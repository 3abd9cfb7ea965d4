//! Peripherals as the clock and power control sees them.

use crate::effect::{Effect, EffectQueue};
use vstd::prelude::*;

verus! {

/// A peripheral that can be powered.
#[derive(Clone, Copy, Debug, PartialEq, Eq, Structural)]
pub enum Peripheral {
    Spi2,
    Spi3,
}

/// Keeps a peripheral powered for as long as it is held.
pub struct PeripheralGuard {
    peripheral: Peripheral,
}

impl PeripheralGuard {
    /// The peripheral that is kept powered.
    pub closed spec fn peripheral(&self) -> Peripheral {
        self.peripheral
    }

    /// Takes a guard.
    pub fn new(queue: &mut EffectQueue, peripheral: Peripheral) -> (guard: PeripheralGuard)
        ensures
            guard.peripheral() == peripheral,
            final(queue)@ == old(queue)@.push(Effect::AcquireGuard(peripheral)),
    {
        queue.push(Effect::AcquireGuard(peripheral));
        PeripheralGuard { peripheral }
    }

    /// Gives the guard back.
    pub fn release(self, queue: &mut EffectQueue)
        ensures
            final(queue)@ == old(queue)@.push(Effect::ReleaseGuard(self.peripheral())),
    {
        queue.push(Effect::ReleaseGuard(self.peripheral));
    }
}

} // verus!
