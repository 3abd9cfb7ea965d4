//! What holds of the driver as a whole.

use crate::chip::Chip;
use crate::dma::{DmaPeripheral, PeripheralDmaChannel};
use crate::effect::Effect;
use crate::gpio::{InputSignal, OutputSignal, Pin};
use crate::info::Info;
use crate::model::{Layout, Machine};
use crate::register::{Field, FieldValue, Register, RegisterBlock};
use crate::slave::{Assignment, SpiView};
use crate::spi::{AnySpi, DmaEligible, Mode};
use crate::system::Peripheral;
use vstd::prelude::*;
use vstd::std_specs::cmp::PartialEqSpec;

verus! {

broadcast use crate::model::run_add;

/// Resetting the slave logic raises its reset bit and lowers it again, and changes nothing else.
pub proof fn reset_is_a_pulse(machine: Machine, layout: Layout, info: Info)
    ensures
        ({
            let up = machine.run(layout, info.reset_effects().take(1));
            let down = machine.run(layout, info.reset_effects());
            let bit = (info.register_block, Register::Slave, info.reset_field());
            &&& up.field(bit.0, bit.1, bit.2) == 1
            &&& down.field(bit.0, bit.1, bit.2) == 0
            &&& forall|b: RegisterBlock, r: Register, f: Field|
                (b, r, f) != bit ==> #[trigger] down.field(b, r, f) == machine.field(b, r, f)
        }),
{
    reveal_with_fuel(Machine::run, 3);
    reveal_with_fuel(crate::model::last_value, 3);
}

/// After initialisation the registers do not depend on what they were before: the clock, the
/// control and, where there is one, the miscellaneous register are zero, the user register says
/// full duplex and nothing else, and the slave register makes the controller a slave out of
/// reset.
pub proof fn init_decides_the_registers(machine: Machine, layout: Layout, info: Info)
    requires
        layout.zero_is_zero(),
    ensures
        ({
            let after = machine.run(layout, info.init_effects());
            let block = info.register_block;
            &&& forall|f: Field| #[trigger] after.field(block, Register::Clock, f) == 0
            &&& forall|f: Field| #[trigger] after.field(block, Register::Ctrl, f) == 0
            &&& forall|f: Field| #[trigger]
                after.field(block, Register::User, f) == (if f == Field::Doutdin {
                    1u32
                } else {
                    0
                })
            &&& forall|f: Field| #[trigger]
                after.field(block, Register::Slave, f) == (if f == Field::Mode {
                    1u32
                } else if f == info.reset_field() {
                    0
                } else if f == Field::SlvWrRdBufEn && info.chip == Chip::Esp32 {
                    1
                } else {
                    (layout.reset)(Register::Slave, f)
                })
            &&& info.chip != Chip::Esp32 ==> forall|f: Field| #[trigger]
                after.field(block, Register::Misc, f) == 0
        }),
{
    reveal_with_fuel(Machine::run, 5);
    reveal_with_fuel(crate::model::last_value, 3);
}

/// The fields that setting an SPI mode decides.
pub open spec fn mode_field(info: Info, register: Register, field: Field) -> bool {
    if info.chip == Chip::Esp32 {
        ||| register == Register::Pin && field == Field::CkIdleEdge
        ||| register == Register::User && field == Field::CkIEdge
        ||| register == Register::Ctrl2 && (field == Field::MisoDelayMode || field
            == Field::MisoDelayNum || field == Field::MosiDelayMode || field
            == Field::MosiDelayNum)
    } else {
        ||| register == Register::User && (field == Field::TsckIEdge || field == Field::RsckIEdge)
        ||| register == info.clock_mode_register() && field == Field::ClkMode13
    }
}

/// Setting an SPI mode changes the fields of the mode and no others, and what they come to does
/// not depend on the hardware before: of two modes set one after the other the last one counts.
pub proof fn last_mode_counts(
    first: Machine,
    second: Machine,
    layout: Layout,
    info: Info,
    mode: Mode,
)
    ensures
        forall|r: Register, f: Field|
            mode_field(info, r, f) ==> #[trigger] first.run(
                layout,
                info.data_mode_effects(mode),
            ).field(info.register_block, r, f) == second.run(
                layout,
                info.data_mode_effects(mode),
            ).field(info.register_block, r, f),
        forall|b: RegisterBlock, r: Register, f: Field|
            !(b == info.register_block && mode_field(info, r, f)) ==> #[trigger] first.run(
                layout,
                info.data_mode_effects(mode),
            ).field(b, r, f) == first.field(b, r, f),
{
    reveal_with_fuel(Machine::run, 4);
    reveal_with_fuel(crate::model::last_value, 5);
}

/// Different SPI modes leave the hardware different, whatever it was before each.
pub proof fn modes_are_told_apart(
    first: Machine,
    second: Machine,
    layout: Layout,
    info: Info,
    mode: Mode,
    other: Mode,
)
    requires
        mode != other,
    ensures
        exists|r: Register, f: Field|
            mode_field(info, r, f) && #[trigger] first.run(
                layout,
                info.data_mode_effects(mode),
            ).field(info.register_block, r, f) != second.run(
                layout,
                info.data_mode_effects(other),
            ).field(info.register_block, r, f),
{
    reveal_with_fuel(Machine::run, 4);
    reveal_with_fuel(crate::model::last_value, 5);
    let a = first.run(layout, info.data_mode_effects(mode));
    let b = second.run(layout, info.data_mode_effects(other));
    let block = info.register_block;
    if info.chip == Chip::Esp32 {
        assert(a.field(block, Register::Pin, Field::CkIdleEdge) != b.field(
            block,
            Register::Pin,
            Field::CkIdleEdge,
        ) || a.field(block, Register::User, Field::CkIEdge) != b.field(
            block,
            Register::User,
            Field::CkIEdge,
        ));
    } else {
        let register = info.clock_mode_register();
        assert(a.field(block, Register::User, Field::TsckIEdge) != b.field(
            block,
            Register::User,
            Field::TsckIEdge,
        ) || a.field(block, register, Field::ClkMode13) != b.field(
            block,
            register,
            Field::ClkMode13,
        ));
    }
}

/// Initialising a controller and setting its SPI mode touch its own registers and nothing else.
pub proof fn configuration_stays_in_its_block(
    machine: Machine,
    layout: Layout,
    info: Info,
    mode: Mode,
)
    ensures
        ({
            let after = machine.run(layout, info.init_effects() + info.data_mode_effects(mode));
            &&& after == Machine { fields: after.fields, ..machine }
            &&& forall|b: RegisterBlock, r: Register, f: Field|
                b != info.register_block ==> #[trigger] after.field(b, r, f) == machine.field(
                    b,
                    r,
                    f,
                )
        }),
{
    crate::model::run_stays_in(
        machine,
        layout,
        info.init_effects() + info.data_mode_effects(mode),
        info.register_block,
    );
}

/// A new driver is its configuration between taking a guard and connecting its signals.
pub proof fn new_in_steps(machine: Machine, layout: Layout, info: Info, mode: Mode)
    ensures
        ({
            let powered = machine.step(layout, Effect::AcquireGuard(info.peripheral));
            let configured = powered.run(
                layout,
                info.init_effects() + info.data_mode_effects(mode),
            );
            let after = machine.run(layout, info.new_effects(mode));
            &&& after == configured.run(layout, info.mosi_effects(Pin::NoPin)).run(
                layout,
                info.miso_effects(Pin::NoPin),
            ).run(layout, info.sck_effects(Pin::NoPin)).run(layout, info.cs_effects(Pin::NoPin))
            &&& configured == Machine { fields: configured.fields, ..powered }
            &&& after.fields == configured.fields
        }),
{
    let guard = seq![Effect::AcquireGuard(info.peripheral)];
    let configuration = info.init_effects() + info.data_mode_effects(mode);
    let powered = machine.step(layout, Effect::AcquireGuard(info.peripheral));
    assert(machine.run(layout, guard) == powered) by {
        reveal_with_fuel(Machine::run, 2);
    }
    configuration_stays_in_its_block(powered, layout, info, mode);
    let configured = powered.run(layout, configuration);
    let pins = info.mosi_effects(Pin::NoPin) + info.miso_effects(Pin::NoPin) + info.sck_effects(
        Pin::NoPin,
    ) + info.cs_effects(Pin::NoPin);
    assert(info.new_effects(mode) =~= guard + configuration + pins);
    crate::model::run_no_registers(configured, layout, pins);
}

/// A new driver's signals are connected to no pin.
pub proof fn new_connects_no_pin(machine: Machine, layout: Layout, spi: AnySpi, mode: Mode)
    ensures
        ({
            let info = crate::info::spec_info(spi);
            let after = machine.run(layout, info.new_effects(mode));
            &&& (after.inputs)(info.sclk) == Pin::NoPin
            &&& (after.inputs)(info.mosi) == Pin::NoPin
            &&& (after.outputs)(info.miso) == Pin::NoPin
            &&& (after.inputs)(info.cs) == Pin::NoPin
        }),
{
    let info = crate::info::spec_info(spi);
    new_in_steps(machine, layout, info, mode);
    reveal_with_fuel(Machine::run, 3);
}

/// Assigning a pin to a signal connects that signal to it, and leaves the other signals, the
/// registers and the power as they were. The pin has its input stage on where the signal comes
/// in, and is a push-pull output where it goes out; other pins are not switched.
pub proof fn pins_are_independent(machine: Machine, layout: Layout, spi: AnySpi, pin: Pin)
    ensures
        ({
            let info = crate::info::spec_info(spi);
            let sck = machine.run(layout, info.sck_effects(pin));
            let mosi = machine.run(layout, info.mosi_effects(pin));
            let miso = machine.run(layout, info.miso_effects(pin));
            let cs = machine.run(layout, info.cs_effects(pin));
            &&& (sck.inputs)(info.sclk) == pin
            &&& forall|s: InputSignal|
                s != info.sclk ==> #[trigger] (sck.inputs)(s) == (machine.inputs)(s)
            &&& sck == Machine { inputs: sck.inputs, input_on: sck.input_on, ..machine }
            &&& (mosi.inputs)(info.mosi) == pin
            &&& forall|s: InputSignal|
                s != info.mosi ==> #[trigger] (mosi.inputs)(s) == (machine.inputs)(s)
            &&& mosi == Machine { inputs: mosi.inputs, input_on: mosi.input_on, ..machine }
            &&& (miso.outputs)(info.miso) == pin
            &&& forall|s: OutputSignal|
                s != info.miso ==> #[trigger] (miso.outputs)(s) == (machine.outputs)(s)
            &&& miso == Machine { outputs: miso.outputs, push_pull: miso.push_pull, ..machine }
            &&& (cs.inputs)(info.cs) == pin
            &&& forall|s: InputSignal|
                s != info.cs ==> #[trigger] (cs.inputs)(s) == (machine.inputs)(s)
            &&& cs == Machine { inputs: cs.inputs, input_on: cs.input_on, ..machine }
            &&& info.sclk != info.mosi
            &&& info.sclk != info.cs
            &&& info.mosi != info.cs
            &&& (sck.input_on)(pin) && (mosi.input_on)(pin) && (cs.input_on)(pin)
            &&& (miso.push_pull)(pin)
            &&& forall|p: Pin|
                p != pin ==> #[trigger] (sck.input_on)(p) == (machine.input_on)(p)
            &&& forall|p: Pin|
                p != pin ==> #[trigger] (mosi.input_on)(p) == (machine.input_on)(p)
            &&& forall|p: Pin|
                p != pin ==> #[trigger] (miso.push_pull)(p) == (machine.push_pull)(p)
            &&& forall|p: Pin|
                p != pin ==> #[trigger] (cs.input_on)(p) == (machine.input_on)(p)
        }),
{
    reveal_with_fuel(Machine::run, 3);
}

/// A new driver takes one guard on its own peripheral.
pub proof fn new_takes_a_guard(machine: Machine, layout: Layout, spi: AnySpi, mode: Mode)
    ensures
        ({
            let info = crate::info::spec_info(spi);
            let after = machine.run(layout, info.new_effects(mode));
            forall|p: Peripheral| #[trigger]
                (after.guards)(p) == (machine.guards)(p) + (if p == info.peripheral {
                    1int
                } else {
                    0
                })
        }),
{
    let info = crate::info::spec_info(spi);
    new_in_steps(machine, layout, info, mode);
    reveal_with_fuel(Machine::run, 3);
}

/// Making a driver DMA capable, in two parts: setting the SPI mode, and everything else, which
/// does not touch the registers or the pins.
pub proof fn with_dma_in_parts(
    machine: Machine,
    layout: Layout,
    spi: SpiView,
    channel: PeripheralDmaChannel,
) -> (rest: Seq<Effect<Seq<FieldValue>>>)
    ensures
        rest =~= crate::slave::dma::new_dma_effects(spi.spi, channel) + seq![
            Effect::ReleaseGuard(spi.guarded),
        ],
        crate::slave::dma::with_dma_effects(spi, channel) == spi.info().data_mode_effects(spi.mode)
            + rest,
        ({
            let set = machine.run(layout, spi.info().data_mode_effects(spi.mode));
            let after = machine.run(layout, crate::slave::dma::with_dma_effects(spi, channel));
            &&& set == Machine { fields: set.fields, ..machine }
            &&& after == set.run(layout, rest)
            &&& after.fields == set.fields
            &&& after.inputs == machine.inputs
            &&& after.outputs == machine.outputs
            &&& after.input_on == machine.input_on
            &&& after.push_pull == machine.push_pull
        }),
{
    let mode = spi.info().data_mode_effects(spi.mode);
    let rest = crate::slave::dma::new_dma_effects(spi.spi, channel) + seq![
        Effect::ReleaseGuard(spi.guarded),
    ];
    assert(crate::slave::dma::with_dma_effects(spi, channel) =~= mode + rest);
    crate::model::run_stays_in(machine, layout, mode, spi.info().register_block);
    let set = machine.run(layout, mode);
    assert({
        let after = set.run(layout, rest);
        &&& after.fields == set.fields
        &&& after.inputs == set.inputs
        &&& after.outputs == set.outputs
        &&& after.input_on == set.input_on
        &&& after.push_pull == set.push_pull
    }) by {
        reveal_with_fuel(Machine::run, 5);
    }
    rest
}

/// What making a driver DMA capable does to the guards comes to nothing.
pub proof fn with_dma_exchanges_the_guard(
    machine: Machine,
    layout: Layout,
    spi: SpiView,
    channel: PeripheralDmaChannel,
)
    requires
        spi.wf(),
    ensures
        forall|p: Peripheral| #[trigger]
            (machine.run(layout, crate::slave::dma::with_dma_effects(spi, channel)).guards)(p)
                == (machine.guards)(p),
{
    let rest = with_dma_in_parts(machine, layout, spi, channel);
    reveal_with_fuel(Machine::run, 5);
}

/// Making a driver DMA capable exchanges its guard for another on the same peripheral, and takes
/// the new one before it gives the old one back: the peripheral is powered throughout.
pub proof fn with_dma_keeps_the_power_on(
    machine: Machine,
    layout: Layout,
    spi: SpiView,
    channel: PeripheralDmaChannel,
    done: int,
)
    requires
        spi.wf(),
        (machine.guards)(spi.guarded) > 0,
        0 <= done <= crate::slave::dma::with_dma_effects(spi, channel).len(),
    ensures
        ({
            let effects = crate::slave::dma::with_dma_effects(spi, channel);
            let during = machine.run(layout, effects.take(done));
            let after = machine.run(layout, effects);
            &&& (during.guards)(spi.guarded) > 0
            &&& forall|p: Peripheral| #[trigger] (after.guards)(p) == (machine.guards)(p)
        }),
{
    let info = spi.info();
    let mode = info.data_mode_effects(spi.mode);
    let effects = crate::slave::dma::with_dma_effects(spi, channel);
    let rest = with_dma_in_parts(machine, layout, spi, channel);
    let set = machine.run(layout, mode);
    if done <= mode.len() {
        crate::model::run_stays_in(machine, layout, effects.take(done), info.register_block);
    } else {
        let left = done - mode.len();
        assert(effects.take(done) =~= mode + rest.take(left));
        assert((set.run(layout, rest.take(left)).guards)(spi.guarded) > 0) by {
            reveal_with_fuel(Machine::run, 5);
        }
    }
    with_dma_exchanges_the_guard(machine, layout, spi, channel);
}

/// A driver gives back as many guards as it takes: when it ends, with or without a DMA channel,
/// the power is as it was before the driver was made.
pub proof fn drivers_give_the_power_back(
    machine: Machine,
    layout: Layout,
    spi: SpiView,
    channel: PeripheralDmaChannel,
)
    requires
        spi.wf(),
    ensures
        ({
            let new = spi.info().new_effects(spi.mode);
            let end = seq![Effect::ReleaseGuard(spi.info().peripheral)];
            let without = machine.run(layout, new + end);
            let with = machine.run(
                layout,
                new + crate::slave::dma::with_dma_effects(spi, channel) + end,
            );
            &&& forall|p: Peripheral| #[trigger] (without.guards)(p) == (machine.guards)(p)
            &&& forall|p: Peripheral| #[trigger] (with.guards)(p) == (machine.guards)(p)
        }),
{
    let info = spi.info();
    let made = machine.run(layout, info.new_effects(spi.mode));
    new_takes_a_guard(machine, layout, spi.spi, spi.mode);
    with_dma_exchanges_the_guard(made, layout, spi, channel);
    reveal_with_fuel(Machine::run, 2);
}

/// Assigning pins leaves the registers and the power alone.
proof fn assignments_touch_pins_only(
    machine: Machine,
    layout: Layout,
    info: Info,
    assignments: Seq<Assignment>,
)
    ensures
        ({
            let after = machine.run(layout, info.assignments_effects(assignments));
            after.fields == machine.fields && after.guards == machine.guards
        }),
    decreases assignments.len(),
{
    if assignments.len() > 0 {
        assignments_touch_pins_only(machine, layout, info, assignments.drop_last());
        let before = machine.run(layout, info.assignments_effects(assignments.drop_last()));
        assert({
            let after = before.run(layout, info.assignment_effects(assignments.last()));
            after.fields == before.fields && after.guards == before.guards
        }) by {
            reveal_with_fuel(Machine::run, 3);
        }
    }
}

/// Making a driver DMA capable leaves the registers, the pins and the power as they are, whatever
/// pins have been assigned to the driver before.
pub proof fn with_dma_changes_nothing(
    machine: Machine,
    layout: Layout,
    spi: SpiView,
    assignments: Seq<Assignment>,
    channel: PeripheralDmaChannel,
)
    requires
        spi.wf(),
    ensures
        ({
            let ready = machine.run(
                layout,
                spi.info().new_effects(spi.mode) + spi.info().assignments_effects(assignments),
            );
            let after = ready.run(layout, crate::slave::dma::with_dma_effects(spi, channel));
            &&& forall|b: RegisterBlock, r: Register, f: Field| #[trigger]
                after.field(b, r, f) == ready.field(b, r, f)
            &&& after.inputs == ready.inputs
            &&& after.outputs == ready.outputs
            &&& after.input_on == ready.input_on
            &&& after.push_pull == ready.push_pull
            &&& forall|p: Peripheral| #[trigger] (after.guards)(p) == (ready.guards)(p)
        }),
{
    let info = spi.info();
    let powered = machine.step(layout, Effect::AcquireGuard(info.peripheral));
    let initialised = powered.run(layout, info.init_effects());
    let new = machine.run(layout, info.new_effects(spi.mode));
    let ready = new.run(layout, info.assignments_effects(assignments));
    new_in_steps(machine, layout, info, spi.mode);
    assignments_touch_pins_only(new, layout, info, assignments);
    last_mode_counts(initialised, ready, layout, info, spi.mode);
    last_mode_counts(ready, ready, layout, info, spi.mode);
    with_dma_in_parts(ready, layout, spi, channel);
    with_dma_exchanges_the_guard(ready, layout, spi, channel);
    let set = initialised.run(layout, info.data_mode_effects(spi.mode));
    let again = ready.run(layout, info.data_mode_effects(spi.mode));
    let after = ready.run(layout, crate::slave::dma::with_dma_effects(spi, channel));
    assert forall|b: RegisterBlock, r: Register, f: Field| #[trigger]
        after.field(b, r, f) == ready.field(b, r, f) by {
        assert(set.field(b, r, f) == ready.field(b, r, f));
        assert(again.field(b, r, f) == after.field(b, r, f));
    }
}

/// A DMA capable driver has its own channel checked against its own controller before it takes
/// its guard, touches a register or asks anything of the DMA engine.
pub proof fn channel_is_checked_first(spi: AnySpi, channel: PeripheralDmaChannel)
    ensures
        ({
            let effects = crate::slave::dma::new_dma_effects(spi, channel);
            let check = Effect::EnsureCompatible::<Seq<FieldValue>> {
                channel,
                peripheral: spi.spec_dma_peripheral(),
            };
            exists|at: int|
                0 <= at < effects.len() && #[trigger] effects[at] == check && forall|i: int|
                    0 <= i < at ==> !(#[trigger] effects[i] is AcquireGuard)
                        && !(effects[i] is ReleaseGuard) && !(effects[i] is Register)
                        && !(effects[i] is Dma)
        }),
{
    let effects = crate::slave::dma::new_dma_effects(spi, channel);
    assert(effects[1] is EnsureCompatible);
}

/// A DMA capable driver whose channel does not pass the check with its own controller never comes
/// to anything: it takes no guard, touches no register and asks nothing of the DMA engine,
/// whatever would come later.
pub proof fn nothing_follows_a_failed_check(
    spi: AnySpi,
    channel: PeripheralDmaChannel,
    later: Seq<Effect<Seq<FieldValue>>>,
    passes: spec_fn(PeripheralDmaChannel, DmaPeripheral) -> bool,
)
    requires
        !passes(channel, spi.spec_dma_peripheral()),
    ensures
        crate::model::carried_out(
            crate::slave::dma::new_dma_effects(spi, channel) + later,
            passes,
        ) == seq![
            Effect::OpenChannel::<Seq<FieldValue>>(channel),
            Effect::EnsureCompatible { channel, peripheral: spi.spec_dma_peripheral() },
        ],
{
    reveal_with_fuel(crate::model::carried_out, 3);
    let effects = crate::slave::dma::new_dma_effects(spi, channel) + later;
    assert(effects.drop_first().first() == effects[1]);
}

/// Whether a controller is set up as the driver needs it: a slave, full duplex on one line each
/// way, in an SPI mode.
pub open spec fn configured(machine: Machine, info: Info, mode: Mode) -> bool {
    let block = info.register_block;
    let inverted_edge: u32 = if mode == Mode::_1 || mode == Mode::_2 {
        1
    } else {
        0
    };
    &&& machine.field(block, Register::Slave, Field::Mode) == 1
    &&& machine.field(block, Register::User, Field::Doutdin) == 1
    &&& machine.field(block, Register::User, Field::Sio) == 0
    &&& if info.chip == Chip::Esp32 {
        &&& machine.field(block, Register::Slave, Field::SlvWrRdBufEn) == 1
        &&& machine.field(block, Register::Pin, Field::CkIdleEdge) == (if mode == Mode::_0 || mode
            == Mode::_1 {
            1u32
        } else {
            0
        })
        &&& machine.field(block, Register::User, Field::CkIEdge) == inverted_edge
    } else {
        &&& machine.field(block, Register::User, Field::TsckIEdge) == inverted_edge
        &&& machine.field(block, Register::User, Field::RsckIEdge) == inverted_edge
        &&& machine.field(block, info.clock_mode_register(), Field::ClkMode13) == (if mode
            == Mode::_1 || mode == Mode::_3 {
            1u32
        } else {
            0
        })
    }
}

/// Setting an SPI mode completes the configuration of a controller that is a slave, full duplex on
/// one line each way.
proof fn mode_completes_the_configuration(
    machine: Machine,
    layout: Layout,
    info: Info,
    mode: Mode,
)
    requires
        machine.field(info.register_block, Register::Slave, Field::Mode) == 1,
        machine.field(info.register_block, Register::User, Field::Doutdin) == 1,
        machine.field(info.register_block, Register::User, Field::Sio) == 0,
        info.chip == Chip::Esp32 ==> machine.field(
            info.register_block,
            Register::Slave,
            Field::SlvWrRdBufEn,
        ) == 1,
    ensures
        configured(machine.run(layout, info.data_mode_effects(mode)), info, mode),
{
    reveal_with_fuel(Machine::run, 4);
    reveal_with_fuel(crate::model::last_value, 5);
}

/// A new driver has its controller configured.
pub proof fn new_configures(machine: Machine, layout: Layout, info: Info, mode: Mode)
    requires
        layout.zero_is_zero(),
    ensures
        configured(machine.run(layout, info.new_effects(mode)), info, mode),
{
    let powered = machine.step(layout, Effect::AcquireGuard(info.peripheral));
    let initialised = powered.run(layout, info.init_effects());
    new_in_steps(machine, layout, info, mode);
    init_decides_the_registers(powered, layout, info);
    mode_completes_the_configuration(initialised, layout, info, mode);
}

/// A configured controller stays so whatever is done with the driver short of a transfer: pins
/// can be assigned, and a DMA channel.
pub proof fn assignments_keep_the_configuration(
    machine: Machine,
    layout: Layout,
    spi: SpiView,
    pin: Pin,
    channel: PeripheralDmaChannel,
)
    requires
        configured(machine, spi.info(), spi.mode),
    ensures
        configured(machine.run(layout, spi.info().sck_effects(pin)), spi.info(), spi.mode),
        configured(machine.run(layout, spi.info().mosi_effects(pin)), spi.info(), spi.mode),
        configured(machine.run(layout, spi.info().miso_effects(pin)), spi.info(), spi.mode),
        configured(machine.run(layout, spi.info().cs_effects(pin)), spi.info(), spi.mode),
        configured(
            machine.run(layout, crate::slave::dma::with_dma_effects(spi, channel)),
            spi.info(),
            spi.mode,
        ),
{
    let info = spi.info();
    pins_are_independent(machine, layout, spi.spi, pin);
    mode_completes_the_configuration(machine, layout, info, spi.mode);
    with_dma_in_parts(machine, layout, spi, channel);
}

/// Descriptions are equal exactly when they are of the same controller, whether or not they are
/// told apart by anything else.
pub proof fn descriptions_name_the_controller(a: AnySpi, b: AnySpi)
    ensures
        crate::info::spec_info(a).eq_spec(&crate::info::spec_info(b)) <==> (a is Spi2
            <==> b is Spi2),
        crate::info::spec_info(a).eq_spec(&crate::info::spec_info(b)) <==> crate::info::spec_info(
            a,
        ).peripheral == crate::info::spec_info(b).peripheral,
        crate::info::spec_info(a).eq_spec(&crate::info::spec_info(b))
            <==> a.spec_dma_peripheral() == b.spec_dma_peripheral(),
{
}

} // verus!
