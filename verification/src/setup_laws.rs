//! What the calls that set a controller up do to the hardware, from whatever state it is in.

use crate::chip::Chip;
use crate::dma::{DmaPeripheral, PeripheralDmaChannel};
use crate::effect::{Effect, EffectQueue};
use crate::gpio::{InputSignal, OutputSignal, Pin};
use crate::info::{BusStatus, Info, Instance, Poll};
use crate::model::{Layout, Machine};
use crate::register::{Access, Field, FieldValue, Register, RegisterBlock};
use crate::slave::Spi;
use crate::spi::{AnySpi, Blocking, DmaEligible, Error, Mode, SPI2, SPI3};
use crate::system::{Peripheral, PeripheralGuard};
use vstd::prelude::*;

verus! {

broadcast use crate::model::run_add;

/// Two chips have DMA engines in their controllers, the others share one, and three chips have a
/// second controller.
pub proof fn chips_differ(chip: Chip)
    ensures
        chip.has_pdma() <==> chip is Esp32 || chip is Esp32s2,
        chip.has_gdma() <==> !(chip is Esp32) && !(chip is Esp32s2),
        chip.has_spi3() <==> chip is Esp32 || chip is Esp32s2 || chip is Esp32s3,
{
}

/// Only the ESP32 refuses DMA, and only in modes 0 and 2.
pub proof fn dma_modes(chip: Chip, mode: Mode)
    ensures
        !crate::info::mode_supports_dma(chip, mode) <==> chip is Esp32 && (mode is _0 || mode
            is _2),
{
}

/// A channel is compatible with exactly those peripherals that it says it serves.
pub proof fn channels_keep_their_word(channel: PeripheralDmaChannel)
    ensures
        channel.is_compatible_with(DmaPeripheral::Spi2) == channel.serves_spi2,
        channel.is_compatible_with(DmaPeripheral::Spi3) == channel.serves_spi3,
{
}

/// A controller's description names its own chip, block and peripheral, and the signals that are
/// wired to it on that chip.
pub proof fn controllers_are_wired<I: Instance>(spi: I, info: Info)
    requires
        call_ensures(I::info, (&spi,), info),
    ensures
        match spi.as_any() {
            AnySpi::Spi2(two) => {
                &&& info.chip == two.spec_chip()
                &&& info.register_block is Spi2
                &&& info.peripheral is Spi2
                &&& spi.as_any().spec_dma_peripheral() is Spi2
                &&& if info.chip is Esp32 {
                    &&& info.sclk is HSPICLK && info.mosi is HSPID
                    &&& info.miso is HSPIQ && info.cs is HSPICS0
                } else {
                    &&& info.sclk is FSPICLK && info.mosi is FSPID
                    &&& info.miso is FSPIQ && info.cs is FSPICS0
                }
            },
            AnySpi::Spi3(three) => {
                &&& info.chip == three.spec_chip()
                &&& info.register_block is Spi3
                &&& info.peripheral is Spi3
                &&& spi.as_any().spec_dma_peripheral() is Spi3
                &&& if info.chip is Esp32 {
                    &&& info.sclk is VSPICLK && info.mosi is VSPID
                    &&& info.miso is VSPIQ && info.cs is VSPICS0
                } else {
                    &&& info.sclk is SPI3_CLK && info.mosi is SPI3_D
                    &&& info.miso is SPI3_Q && info.cs is SPI3_CS0
                }
            },
        },
{
}

/// Every chip has an SPI2 controller, three have an SPI3 controller, and a controller knows its
/// chip.
pub proof fn controllers_exist(
    chip: Chip,
    two: SPI2,
    three: Option<SPI3>,
    chip_of_two: Chip,
    chip_of_three: Chip,
)
    requires
        call_ensures(SPI2::new, (chip,), two),
        call_ensures(SPI2::chip, (&two,), chip_of_two),
        call_ensures(SPI3::new, (chip,), three),
        three matches Some(spi) ==> call_ensures(SPI3::chip, (&spi,), chip_of_three),
    ensures
        chip_of_two == chip,
        three is Some <==> chip is Esp32 || chip is Esp32s2 || chip is Esp32s3,
        three is Some ==> chip_of_three == chip,
{
}

/// Forgetting which controller one has does not change which one it is, nor its chip.
pub proof fn forgetting_the_controller(
    two: SPI2,
    any_two: AnySpi,
    three: SPI3,
    any_three: AnySpi,
    spi: AnySpi,
    any: AnySpi,
)
    requires
        call_ensures(SPI2::into_any, (two,), any_two),
        call_ensures(SPI3::into_any, (three,), any_three),
        call_ensures(AnySpi::into_any, (spi,), any),
    ensures
        any_two matches AnySpi::Spi2(inner) && inner == two,
        any_three matches AnySpi::Spi3(inner) && inner == three,
        any == spi,
{
}

/// The DMA engine's names for the controllers are those of the controllers.
pub proof fn naming_the_dma_peripheral(
    two: SPI2,
    name_of_two: DmaPeripheral,
    three: SPI3,
    name_of_three: DmaPeripheral,
    spi: AnySpi,
    name: DmaPeripheral,
)
    requires
        call_ensures(SPI2::dma_peripheral, (&two,), name_of_two),
        call_ensures(SPI3::dma_peripheral, (&three,), name_of_three),
        call_ensures(AnySpi::dma_peripheral, (&spi,), name),
    ensures
        name_of_two is Spi2,
        name_of_three is Spi3,
        name is Spi2 <==> spi is Spi2,
        name is Spi3 <==> spi is Spi3,
{
}

/// An effect that is added to a queue comes behind those that wait, and those stay as they are.
pub proof fn queueing(queue: &mut EffectQueue, effect: Effect<Vec<FieldValue>>)
    requires
        call_ensures(EffectQueue::push, (queue, effect), ()),
    ensures
        final(queue)@.len() == old(queue)@.len() + 1,
        old(queue)@.is_prefix_of(final(queue)@),
        final(queue)@.last() == effect@,
{
}

/// What is taken out of a queue is what waited in it, in order, and nothing waits any more.
pub proof fn emptying_a_queue(queue: &mut EffectQueue, effects: Vec<Effect<Vec<FieldValue>>>)
    requires
        call_ensures(EffectQueue::take, (queue,), effects),
    ensures
        effects@.len() == old(queue)@.len(),
        forall|i: int| 0 <= i < effects@.len() ==> (#[trigger] effects@[i])@ == old(queue)@[i],
        final(queue)@.len() == 0,
{
}

/// A whole register that is written holds the number, by its fields, whatever was there.
pub proof fn writing_bits(
    queue: &mut EffectQueue,
    block: RegisterBlock,
    register: Register,
    bits: u32,
    machine: Machine,
    layout: Layout,
    field: Field,
)
    requires
        call_ensures(EffectQueue::write_bits, (queue, block, register, bits), ()),
    ensures
        old(queue)@.is_prefix_of(final(queue)@),
        machine.run(layout, crate::model::added(old(queue)@, final(queue)@)).field(
            block,
            register,
            field,
        ) == (layout.decode)(register, field, bits),
{
    let new = seq![Effect::write_bits(block, register, bits)];
    assert(final(queue)@ =~= old(queue)@ + new);
    crate::model::added_behind(old(queue)@, new);
    reveal_with_fuel(Machine::run, 2);
}

/// In a register that is written, a field that is not named holds its reset value, and in one that
/// is changed it stays as it is. A field that is named once holds its number in either case.
pub proof fn writing_fields(
    written: &mut EffectQueue,
    changed: &mut EffectQueue,
    block: RegisterBlock,
    register: Register,
    fields: Vec<FieldValue>,
    machine: Machine,
    layout: Layout,
    field: Field,
)
    requires
        call_ensures(EffectQueue::write, (written, block, register, fields), ()),
        call_ensures(EffectQueue::modify, (changed, block, register, fields), ()),
    ensures
        old(written)@.is_prefix_of(final(written)@),
        old(changed)@.is_prefix_of(final(changed)@),
        ({
            let after_write = machine.run(
                layout,
                crate::model::added(old(written)@, final(written)@),
            ).field(block, register, field);
            let after_change = machine.run(
                layout,
                crate::model::added(old(changed)@, final(changed)@),
            ).field(block, register, field);
            &&& (forall|i: int| 0 <= i < fields@.len() ==> (#[trigger] fields@[i]).field != field)
                ==> after_write == (layout.reset)(register, field) && after_change == machine.field(
                block,
                register,
                field,
            )
            &&& forall|i: int|
                0 <= i < fields@.len() && (#[trigger] fields@[i]).field == field && (forall|j: int|
                    i < j < fields@.len() ==> (#[trigger] fields@[j]).field != field)
                    ==> after_write == fields@[i].bits && after_change == fields@[i].bits
        }),
{
    let write = seq![Effect::write(block, register, fields@)];
    let change = seq![Effect::modify(block, register, fields@)];
    assert(final(written)@ =~= old(written)@ + write);
    assert(final(changed)@ =~= old(changed)@ + change);
    crate::model::added_behind(old(written)@, write);
    crate::model::added_behind(old(changed)@, change);
    reveal_with_fuel(Machine::run, 2);
    last_value_counts(fields@, field);
}

/// The last number that a list gives for a field is what it says of the field.
proof fn last_value_counts(fields: Seq<FieldValue>, field: Field)
    ensures
        (forall|i: int| 0 <= i < fields.len() ==> (#[trigger] fields[i]).field != field)
            ==> crate::model::last_value(fields, field) is None,
        forall|i: int|
            0 <= i < fields.len() && (#[trigger] fields[i]).field == field && (forall|j: int|
                i < j < fields.len() ==> (#[trigger] fields[j]).field != field)
                ==> crate::model::last_value(fields, field) == Some(fields[i].bits),
    decreases fields.len(),
{
    if fields.len() > 0 {
        let n = fields.len() - 1;
        assert(fields.last() == fields[n]);
        last_value_counts(fields.drop_last(), field);
        assert(forall|i: int| 0 <= i < n ==> #[trigger] fields.drop_last()[i] == fields[i]);
        assert forall|i: int|
            0 <= i < fields.len() && (#[trigger] fields[i]).field == field && (forall|j: int|
                i < j < fields.len() ==> (#[trigger] fields[j]).field
                    != field) implies crate::model::last_value(fields, field) == Some(
            fields[i].bits,
        ) by {
            if i < n {
                assert(fields.drop_last()[i] == fields[i]);
            }
        }
    }
}

/// A guard that is taken and given back again leaves the power as it was, and while it is held
/// there is one more on its peripheral, and on no other.
pub proof fn guarding(
    taking: &mut EffectQueue,
    giving: &mut EffectQueue,
    peripheral: Peripheral,
    guard: PeripheralGuard,
    machine: Machine,
    layout: Layout,
)
    requires
        call_ensures(PeripheralGuard::new, (taking, peripheral), guard),
        call_ensures(PeripheralGuard::release, (guard, giving), ()),
    ensures
        old(taking)@.is_prefix_of(final(taking)@),
        old(giving)@.is_prefix_of(final(giving)@),
        ({
            let held = machine.run(layout, crate::model::added(old(taking)@, final(taking)@));
            let after = held.run(layout, crate::model::added(old(giving)@, final(giving)@));
            &&& held == Machine { guards: held.guards, ..machine }
            &&& forall|p: Peripheral| #[trigger]
                (held.guards)(p) == (machine.guards)(p) + (if p == peripheral {
                    1int
                } else {
                    0
                })
            &&& after == machine
        }),
{
    let take = seq![Effect::AcquireGuard(peripheral)];
    let give = seq![Effect::ReleaseGuard(peripheral)];
    assert(final(taking)@ =~= old(taking)@ + take);
    assert(final(giving)@ =~= old(giving)@ + give);
    crate::model::added_behind(old(taking)@, take);
    crate::model::added_behind(old(giving)@, give);
    reveal_with_fuel(Machine::run, 2);
    let after = machine.run(layout, take).run(layout, give);
    assert(after.guards =~= machine.guards);
}

/// Nothing of an effect is lost in its view.
pub proof fn views_lose_nothing(effects: Seq<Effect<Vec<FieldValue>>>, i: int)
    requires
        0 <= i < effects.len(),
    ensures
        crate::effect::views(effects).len() == effects.len(),
        ({
            let seen = crate::effect::views(effects)[i];
            match effects[i] {
                Effect::AcquireGuard(p) => seen matches Effect::AcquireGuard(q) && q == p,
                Effect::ReleaseGuard(p) => seen matches Effect::ReleaseGuard(q) && q == p,
                Effect::Register(block, access) => {
                    &&& seen matches Effect::Register(b, a)
                    &&& b == block
                    &&& match access {
                        Access::WriteBits { register, bits } => a == Access::WriteBits::<
                            Seq<FieldValue>,
                        > { register, bits },
                        Access::Write { register, fields } => a == Access::Write {
                            register,
                            fields: fields@,
                        },
                        Access::Modify { register, fields } => a == Access::Modify {
                            register,
                            fields: fields@,
                        },
                    }
                },
                Effect::EnableInput { pin, enable } => {
                    &&& seen matches Effect::EnableInput { pin: p, enable: e }
                    &&& p == pin && e == enable
                },
                Effect::SetToPushPullOutput { pin } => {
                    seen matches Effect::SetToPushPullOutput { pin: p } && p == pin
                },
                Effect::ConnectInput { signal, pin } => {
                    &&& seen matches Effect::ConnectInput { signal: s, pin: p }
                    &&& s == signal && p == pin
                },
                Effect::ConnectOutput { signal, pin } => {
                    &&& seen matches Effect::ConnectOutput { signal: s, pin: p }
                    &&& s == signal && p == pin
                },
                Effect::OpenChannel(channel) => {
                    seen matches Effect::OpenChannel(c) && c == channel
                },
                Effect::EnsureCompatible { channel, peripheral } => {
                    &&& seen matches Effect::EnsureCompatible { channel: c, peripheral: p }
                    &&& c == channel && p == peripheral
                },
                Effect::Dma(request) => seen matches Effect::Dma(r) && r == request,
            }
        }),
{
}

/// A reset raises the reset bit of the chip and lowers it again, and nothing else changes.
pub proof fn resetting(info: Info, queue: &mut EffectQueue, machine: Machine, layout: Layout)
    requires
        call_ensures(Info::reset_spi, (&info, queue), ()),
    ensures
        old(queue)@.is_prefix_of(final(queue)@),
        crate::model::only_registers(
            crate::model::added(old(queue)@, final(queue)@),
            info.register_block,
        ),
        ({
            let new = crate::model::added(old(queue)@, final(queue)@);
            let after = machine.run(layout, new);
            let reset = if info.chip is Esp32 {
                Field::SyncReset
            } else {
                Field::SoftReset
            };
            &&& exists|k: int|
                #![trigger new.take(k)]
                0 <= k <= new.len() && machine.run(layout, new.take(k)).field(
                    info.register_block,
                    Register::Slave,
                    reset,
                ) == 1
            &&& after == Machine { fields: after.fields, ..machine }
            &&& forall|b: RegisterBlock, r: Register, f: Field| #[trigger]
                after.field(b, r, f) == (if b == info.register_block && r is Slave && f == reset {
                    0
                } else {
                    machine.field(b, r, f)
                })
        }),
{
    let new = info.reset_effects();
    assert(final(queue)@ == old(queue)@ + new);
    crate::model::added_behind(old(queue)@, new);
    crate::laws::reset_is_a_pulse(machine, layout, info);
    crate::model::run_stays_in(machine, layout, new, info.register_block);
    assert(machine.run(layout, new.take(1)).field(
        info.register_block,
        Register::Slave,
        info.reset_field(),
    ) == 1);
}

/// Initialisation makes a controller a slave on one data line each way, from any state: what it
/// writes does not depend on what was there, what it does not write stays, and while it is a
/// slave already its logic is reset once.
pub proof fn initialising(info: Info, queue: &mut EffectQueue, machine: Machine, layout: Layout)
    requires
        layout.zero_is_zero(),
        call_ensures(Info::init, (&info, queue), ()),
    ensures
        old(queue)@.is_prefix_of(final(queue)@),
        crate::model::only_registers(
            crate::model::added(old(queue)@, final(queue)@),
            info.register_block,
        ),
        ({
            let new = crate::model::added(old(queue)@, final(queue)@);
            let after = machine.run(layout, new);
            let reset = if info.chip is Esp32 {
                Field::SyncReset
            } else {
                Field::SoftReset
            };
            &&& after == Machine { fields: after.fields, ..machine }
            &&& forall|b: RegisterBlock, r: Register, f: Field| #[trigger]
                after.field(b, r, f) == (if b != info.register_block {
                    machine.field(b, r, f)
                } else {
                    match r {
                        Register::Clock | Register::Ctrl => 0,
                        Register::User => if f is Doutdin {
                            1
                        } else {
                            0
                        },
                        Register::Slave => if f is Mode {
                            1
                        } else if f == reset {
                            0
                        } else if f is SlvWrRdBufEn && info.chip is Esp32 {
                            1
                        } else {
                            (layout.reset)(r, f)
                        },
                        Register::Misc if !(info.chip is Esp32) => 0,
                        _ => machine.field(b, r, f),
                    }
                })
            &&& exists|k: int|
                #![trigger new.take(k)]
                0 <= k <= new.len() && ({
                    let during = machine.run(layout, new.take(k));
                    &&& during.field(info.register_block, Register::Slave, reset) == 1
                    &&& during.field(info.register_block, Register::Slave, Field::Mode) == 1
                })
        }),
{
    let new = info.init_effects();
    let block = info.register_block;
    assert(final(queue)@ == old(queue)@ + new);
    crate::model::added_behind(old(queue)@, new);
    crate::laws::init_decides_the_registers(machine, layout, info);
    crate::model::run_stays_in(machine, layout, new, block);
    let after = machine.run(layout, new);
    assert forall|r: Register, f: Field|
        !(r is Clock || r is Ctrl || r is User || r is Slave || (r is Misc && !(
        info.chip is Esp32))) implies #[trigger] after.field(block, r, f) == machine.field(
        block,
        r,
        f,
    ) by {
        crate::model::run_untouched(machine, layout, new, block, r, f);
    }
    let first = seq![
        Effect::write_bits(block, Register::Clock, 0),
        Effect::write_bits(block, Register::User, 0),
        Effect::write_bits(block, Register::Ctrl, 0),
        Effect::write(block, Register::Slave, info.slave_fields()),
        Effect::modify(
            block,
            Register::Slave,
            seq![crate::register::set_bit(info.reset_field())],
        ),
    ];
    assert(new.take(5) =~= first);
    assert({
        let during = machine.run(layout, first);
        &&& during.field(block, Register::Slave, info.reset_field()) == 1
        &&& during.field(block, Register::Slave, Field::Mode) == 1
    }) by {
        reveal_with_fuel(Machine::run, 6);
        reveal_with_fuel(crate::model::last_value, 3);
    }
}

/// Setting an SPI mode decides the edges, and on the ESP32 the delays, and nothing else.
pub proof fn setting_a_mode(
    info: Info,
    queue: &mut EffectQueue,
    mode: Mode,
    dma: bool,
    machine: Machine,
    layout: Layout,
)
    requires
        call_ensures(Info::set_data_mode, (&info, queue, mode, dma), ()),
    ensures
        old(queue)@.is_prefix_of(final(queue)@),
        crate::model::only_registers(
            crate::model::added(old(queue)@, final(queue)@),
            info.register_block,
        ),
        mode_is_set(
            machine,
            machine.run(layout, crate::model::added(old(queue)@, final(queue)@)),
            info,
            mode,
        ),
{
    assert(final(queue)@ == old(queue)@ + info.data_mode_effects(mode));
    crate::model::added_behind(old(queue)@, info.data_mode_effects(mode));
    mode_effects_set_the_mode(machine, layout, info, mode);
}

/// Whether the hardware has changed to an SPI mode: the clock's idle level and the sampling edge
/// are those of the mode, on the ESP32 the data lines are delayed as the mode needs, and the rest
/// is as it was.
pub open spec fn mode_is_set(before: Machine, after: Machine, info: Info, mode: Mode) -> bool {
    let edge: u32 = if mode is _1 || mode is _2 {
        1
    } else {
        0
    };
    &&& after == Machine { fields: after.fields, ..before }
    &&& forall|b: RegisterBlock, r: Register, f: Field| #[trigger]
        after.field(b, r, f) == (if b != info.register_block {
            before.field(b, r, f)
        } else if info.chip is Esp32 {
            match (r, f) {
                (Register::Pin, Field::CkIdleEdge) => if mode is _0 || mode is _1 {
                    1
                } else {
                    0
                },
                (Register::User, Field::CkIEdge) => edge,
                (Register::Ctrl2, Field::MisoDelayMode) => if mode is _1 {
                    2
                } else if mode is _3 {
                    1
                } else {
                    0
                },
                (Register::Ctrl2, Field::MisoDelayNum) => 0,
                (Register::Ctrl2, Field::MosiDelayMode) => if mode is _0 {
                    2
                } else if mode is _2 {
                    1
                } else {
                    0
                },
                (Register::Ctrl2, Field::MosiDelayNum) => if mode is _0 || mode is _2 {
                    2
                } else {
                    0
                },
                _ => before.field(b, r, f),
            }
        } else {
            match (r, f) {
                (Register::User, Field::TsckIEdge) => edge,
                (Register::User, Field::RsckIEdge) => edge,
                (Register::Ctrl1, Field::ClkMode13) if info.chip is Esp32s2 => if mode is _1
                    || mode is _3 {
                    1
                } else {
                    0
                },
                (Register::Slave, Field::ClkMode13) if !(info.chip is Esp32s2) => if mode is _1
                    || mode is _3 {
                    1
                } else {
                    0
                },
                _ => before.field(b, r, f),
            }
        })
}

/// What is done to set an SPI mode changes the hardware to it.
pub proof fn mode_effects_set_the_mode(machine: Machine, layout: Layout, info: Info, mode: Mode)
    ensures
        mode_is_set(machine, machine.run(layout, info.data_mode_effects(mode)), info, mode),
{
    let new = info.data_mode_effects(mode);
    crate::model::run_stays_in(machine, layout, new, info.register_block);
    reveal_with_fuel(Machine::run, 4);
    reveal_with_fuel(crate::model::last_value, 5);
}

/// Preparing lengths and lines writes the lengths in bits less one, or zero for nothing, enables
/// each data line exactly where there is data for it, and changes nothing else.
pub proof fn preparing_lengths(
    info: Info,
    queue: &mut EffectQueue,
    rx_len: usize,
    tx_len: usize,
    machine: Machine,
    layout: Layout,
)
    requires
        8 * rx_len <= u32::MAX,
        8 * tx_len <= u32::MAX,
        call_ensures(Info::prepare_length_and_lines, (&info, queue, rx_len, tx_len), ()),
    ensures
        old(queue)@.is_prefix_of(final(queue)@),
        crate::model::only_registers(
            crate::model::added(old(queue)@, final(queue)@),
            info.register_block,
        ),
        ({
            let after = machine.run(
                layout,
                crate::model::added(old(queue)@, final(queue)@),
            );
            &&& after == Machine { fields: after.fields, ..machine }
            &&& forall|b: RegisterBlock, r: Register, f: Field| #[trigger]
                after.field(b, r, f) == (if b != info.register_block {
                    machine.field(b, r, f)
                } else {
                    match (r, f) {
                        (Register::SlvRdbufDlen, _) => (layout.decode)(
                            r,
                            f,
                            if rx_len == 0 {
                                0
                            } else {
                                (8 * rx_len - 1) as u32
                            },
                        ),
                        (Register::SlvWrbufDlen, _) => (layout.decode)(
                            r,
                            f,
                            if tx_len == 0 {
                                0
                            } else {
                                (8 * tx_len - 1) as u32
                            },
                        ),
                        (Register::User, Field::UsrMosi) => if rx_len == 0 {
                            0
                        } else {
                            1
                        },
                        (Register::User, Field::UsrMiso) => if tx_len == 0 {
                            0
                        } else {
                            1
                        },
                        _ => machine.field(b, r, f),
                    }
                })
        }),
{
    let new = info.length_effects(rx_len as int, tx_len as int);
    assert(final(queue)@ == old(queue)@ + new);
    crate::model::added_behind(old(queue)@, new);
    crate::model::run_stays_in(machine, layout, new, info.register_block);
    reveal_with_fuel(Machine::run, 4);
    reveal_with_fuel(crate::model::last_value, 3);
}

/// Preparing to flush clears the transaction-done flag of the chip, and no other flag that a
/// write of the reset value leaves alone.
pub proof fn preparing_to_flush(
    info: Info,
    queue: &mut EffectQueue,
    machine: Machine,
    layout: Layout,
)
    requires
        call_ensures(Info::setup_for_flush, (&info, queue), ()),
    ensures
        old(queue)@.is_prefix_of(final(queue)@),
        crate::model::only_registers(
            crate::model::added(old(queue)@, final(queue)@),
            info.register_block,
        ),
        ({
            let after = machine.run(
                layout,
                crate::model::added(old(queue)@, final(queue)@),
            );
            let own_engine = info.chip is Esp32 || info.chip is Esp32s2;
            &&& after == Machine { fields: after.fields, ..machine }
            &&& forall|b: RegisterBlock, r: Register, f: Field| #[trigger]
                after.field(b, r, f) == (if b != info.register_block {
                    machine.field(b, r, f)
                } else if own_engine {
                    if r is Slave && f is TransDone {
                        0
                    } else {
                        machine.field(b, r, f)
                    }
                } else {
                    match r {
                        Register::DmaIntClr => if f is TransDone {
                            1
                        } else {
                            (layout.reset)(r, f)
                        },
                        Register::DmaIntRaw => if f is TransDone || (layout.reset)(
                            Register::DmaIntClr,
                            f,
                        ) == 1 {
                            0
                        } else {
                            machine.field(b, r, f)
                        },
                        _ => machine.field(b, r, f),
                    }
                })
        }),
{
    let new = info.setup_for_flush_effects();
    assert(final(queue)@ == old(queue)@ + new);
    crate::model::added_behind(old(queue)@, new);
    crate::model::run_stays_in(machine, layout, new, info.register_block);
    reveal_with_fuel(Machine::run, 2);
    reveal_with_fuel(crate::model::last_value, 2);
}

/// The bus is busy for as long as the transaction-done flag of the chip is not set: the one in the
/// slave register where the controller has its own DMA engine, the raw interrupt elsewhere.
pub proof fn telling_busy(info: Info, status: BusStatus, busy: bool)
    requires
        call_ensures(Info::is_bus_busy, (&info, &status), busy),
    ensures
        info.chip is Esp32 || info.chip is Esp32s2 ==> busy == !status.slave_trans_done,
        !(info.chip is Esp32 || info.chip is Esp32s2) ==> busy == !status.dma_int_raw_trans_done,
{
}

/// A flush is over, without an error, exactly when the transaction-done flag of the chip is set.
pub proof fn flushing(info: Info, status: BusStatus, poll: Poll<Result<(), Error>>)
    requires
        call_ensures(Info::flush, (&info, &status), poll),
    ensures
        ({
            let done = if info.chip is Esp32 || info.chip is Esp32s2 {
                status.slave_trans_done
            } else {
                status.dma_int_raw_trans_done
            };
            &&& done ==> (poll matches Poll::Ready(result) && result is Ok)
            &&& !done ==> poll is Pending
        }),
{
}

/// What assigning a pin to an input signal of a driver comes to.
pub open spec fn input_assigned(
    before: Machine,
    after: Machine,
    signal: InputSignal,
    pin: Pin,
) -> bool {
    &&& after == Machine { inputs: after.inputs, input_on: after.input_on, ..before }
    &&& forall|s: InputSignal| #[trigger]
        (after.inputs)(s) == (if s == signal {
            pin
        } else {
            (before.inputs)(s)
        })
    &&& forall|p: Pin| #[trigger]
        (after.input_on)(p) == (p == pin || (before.input_on)(p))
}

/// What assigning a pin to an output signal of a driver comes to.
pub open spec fn output_assigned(
    before: Machine,
    after: Machine,
    signal: OutputSignal,
    pin: Pin,
) -> bool {
    &&& after == Machine { outputs: after.outputs, push_pull: after.push_pull, ..before }
    &&& forall|s: OutputSignal| #[trigger]
        (after.outputs)(s) == (if s == signal {
            pin
        } else {
            (before.outputs)(s)
        })
    &&& forall|p: Pin| #[trigger]
        (after.push_pull)(p) == (p == pin || (before.push_pull)(p))
}

/// Assigning SCK takes the clock from the pin, whose input stage is on by the time that the signal
/// is connected. Nothing else changes, in the hardware or in the driver.
pub proof fn assigning_sck(
    spi: Spi<Blocking>,
    pin: Pin,
    this: Spi<Blocking>,
    machine: Machine,
    layout: Layout,
)
    requires
        call_ensures(Spi::<Blocking>::with_sck, (spi, pin), this),
    ensures
        this@ == (crate::slave::SpiView { effects: this@.effects, ..spi@ }),
        spi@.effects.is_prefix_of(this@.effects),
        crate::model::only_pins(crate::model::added(spi@.effects, this@.effects)),
        ({
            let new = crate::model::added(spi@.effects, this@.effects);
            &&& input_assigned(machine, machine.run(layout, new), spi@.info().sclk, pin)
            &&& forall|i: int|
                0 <= i < new.len() && #[trigger] new[i] is ConnectInput ==> (machine.run(
                    layout,
                    new.take(i),
                ).input_on)(pin)
        }),
{
    let new = spi@.info().sck_effects(pin);
    assert(this@.effects == spi@.effects + new);
    crate::model::added_behind(spi@.effects, new);
    reveal_with_fuel(Machine::run, 3);
}

/// Assigning MOSI takes the master's data from the pin, whose input stage is on by the time that
/// the signal is connected. Nothing else changes, in the hardware or in the driver.
pub proof fn assigning_mosi(
    spi: Spi<Blocking>,
    pin: Pin,
    this: Spi<Blocking>,
    machine: Machine,
    layout: Layout,
)
    requires
        call_ensures(Spi::<Blocking>::with_mosi, (spi, pin), this),
    ensures
        this@ == (crate::slave::SpiView { effects: this@.effects, ..spi@ }),
        spi@.effects.is_prefix_of(this@.effects),
        crate::model::only_pins(crate::model::added(spi@.effects, this@.effects)),
        ({
            let new = crate::model::added(spi@.effects, this@.effects);
            &&& input_assigned(machine, machine.run(layout, new), spi@.info().mosi, pin)
            &&& forall|i: int|
                0 <= i < new.len() && #[trigger] new[i] is ConnectInput ==> (machine.run(
                    layout,
                    new.take(i),
                ).input_on)(pin)
        }),
{
    let new = spi@.info().mosi_effects(pin);
    assert(this@.effects == spi@.effects + new);
    crate::model::added_behind(spi@.effects, new);
    reveal_with_fuel(Machine::run, 3);
}

/// Assigning MISO gives data to the master on the pin, which is a push-pull output by the time that
/// the signal is connected. Nothing else changes, in the hardware or in the driver.
pub proof fn assigning_miso(
    spi: Spi<Blocking>,
    pin: Pin,
    this: Spi<Blocking>,
    machine: Machine,
    layout: Layout,
)
    requires
        call_ensures(Spi::<Blocking>::with_miso, (spi, pin), this),
    ensures
        this@ == (crate::slave::SpiView { effects: this@.effects, ..spi@ }),
        spi@.effects.is_prefix_of(this@.effects),
        crate::model::only_pins(crate::model::added(spi@.effects, this@.effects)),
        ({
            let new = crate::model::added(spi@.effects, this@.effects);
            &&& output_assigned(machine, machine.run(layout, new), spi@.info().miso, pin)
            &&& forall|i: int|
                0 <= i < new.len() && #[trigger] new[i] is ConnectOutput ==> (machine.run(
                    layout,
                    new.take(i),
                ).push_pull)(pin)
        }),
{
    let new = spi@.info().miso_effects(pin);
    assert(this@.effects == spi@.effects + new);
    crate::model::added_behind(spi@.effects, new);
    reveal_with_fuel(Machine::run, 3);
}

/// Assigning CS takes the chip select from the pin, whose input stage is on by the time that the
/// signal is connected. Nothing else changes, in the hardware or in the driver.
pub proof fn assigning_cs(
    spi: Spi<Blocking>,
    pin: Pin,
    this: Spi<Blocking>,
    machine: Machine,
    layout: Layout,
)
    requires
        call_ensures(Spi::<Blocking>::with_cs, (spi, pin), this),
    ensures
        this@ == (crate::slave::SpiView { effects: this@.effects, ..spi@ }),
        spi@.effects.is_prefix_of(this@.effects),
        crate::model::only_pins(crate::model::added(spi@.effects, this@.effects)),
        ({
            let new = crate::model::added(spi@.effects, this@.effects);
            &&& input_assigned(machine, machine.run(layout, new), spi@.info().cs, pin)
            &&& forall|i: int|
                0 <= i < new.len() && #[trigger] new[i] is ConnectInput ==> (machine.run(
                    layout,
                    new.take(i),
                ).input_on)(pin)
        }),
{
    let new = spi@.info().cs_effects(pin);
    assert(this@.effects == spi@.effects + new);
    crate::model::added_behind(spi@.effects, new);
    reveal_with_fuel(Machine::run, 3);
}

/// A new driver, made on hardware in any state: its controller is a slave on one data line each
/// way, in the given mode and out of reset, its four signals come from and go to no pin, and its
/// peripheral has one guard more, taken before any register is touched.
pub proof fn making_a_driver<I: Instance>(
    spi: I,
    mode: Mode,
    this: Spi<Blocking>,
    machine: Machine,
    layout: Layout,
)
    requires
        layout.zero_is_zero(),
        call_ensures(Spi::<Blocking>::new::<I>, (spi, mode), this),
    ensures
        this@.spi == spi.as_any(),
        this@.mode == mode,
        this@.guarded == this@.info().peripheral,
        ({
            let info = this@.info();
            let effects = this@.effects;
            let after = machine.run(layout, effects);
            &&& initialised_in(after, info, mode, layout)
            &&& forall|b: RegisterBlock, r: Register, f: Field|
                b != info.register_block ==> #[trigger] after.field(b, r, f) == machine.field(
                    b,
                    r,
                    f,
                )
            &&& (after.inputs)(info.sclk) is NoPin && (after.inputs)(info.mosi) is NoPin
            &&& (after.outputs)(info.miso) is NoPin && (after.inputs)(info.cs) is NoPin
            &&& forall|p: Pin| !(p is NoPin) ==> #[trigger] (after.input_on)(p) == (
            machine.input_on)(p)
            &&& forall|p: Pin| !(p is NoPin) ==> #[trigger] (after.push_pull)(p) == (
            machine.push_pull)(p)
            &&& forall|p: Peripheral| #[trigger]
                (after.guards)(p) == (machine.guards)(p) + (if p == info.peripheral {
                    1int
                } else {
                    0
                })
            &&& forall|i: int|
                0 <= i < effects.len() && #[trigger] effects[i] is Register ==> (machine.run(
                    layout,
                    effects.take(i),
                ).guards)(info.peripheral) == (machine.guards)(info.peripheral) + 1
            &&& forall|i: int|
                0 <= i < effects.len() ==> !(#[trigger] effects[i] is Dma)
                    && !(effects[i] is OpenChannel) && !(effects[i] is EnsureCompatible)
        }),
{
    let info = this@.info();
    new_asks_for_nothing(info, mode);
    assert(this@.effects == info.new_effects(mode));
    new_in_parts(machine, layout, info, mode);
    new_is_powered(machine, layout, info, mode);
}

proof fn new_asks_for_nothing(info: Info, mode: Mode)
    ensures
        forall|i: int|
            0 <= i < info.new_effects(mode).len() ==> !(#[trigger] info.new_effects(mode)[i]
                is Dma) && !(info.new_effects(mode)[i] is OpenChannel) && !(info.new_effects(
                mode,
            )[i] is EnsureCompatible),
{
    let effects = info.new_effects(mode);
    let guard = seq![Effect::AcquireGuard(info.peripheral)];
    let init = info.init_effects();
    let set = info.data_mode_effects(mode);
    let pins = info.mosi_effects(Pin::NoPin) + info.miso_effects(Pin::NoPin) + info.sck_effects(
        Pin::NoPin,
    ) + info.cs_effects(Pin::NoPin);
    assert(effects =~= guard + init + set + pins);
    assert(crate::model::only_registers(init, info.register_block));
    assert(crate::model::only_registers(set, info.register_block));
    assert(crate::model::only_pins(pins));
    assert forall|i: int| 0 <= i < effects.len() implies !(#[trigger] effects[i] is Dma) && !(
    effects[i] is OpenChannel) && !(effects[i] is EnsureCompatible) by {
        if 0 < i <= init.len() {
            assert(effects[i] == init[i - 1]);
        } else if init.len() < i <= init.len() + set.len() {
            assert(effects[i] == set[i - 1 - init.len()]);
        } else if i > 0 {
            assert(effects[i] == pins[i - 1 - init.len() - set.len()]);
        }
    }
}

/// What a new driver does to the hardware, by its parts.
proof fn new_in_parts(machine: Machine, layout: Layout, info: Info, mode: Mode)
    requires
        layout.zero_is_zero(),
    ensures
        ({
            let after = machine.run(layout, info.new_effects(mode));
            &&& initialised_in(after, info, mode, layout)
            &&& forall|b: RegisterBlock, r: Register, f: Field|
                b != info.register_block ==> #[trigger] after.field(b, r, f) == machine.field(
                    b,
                    r,
                    f,
                )
            &&& (after.inputs)(info.sclk) is NoPin && (after.inputs)(info.mosi) is NoPin
            &&& (after.outputs)(info.miso) is NoPin && (after.inputs)(info.cs) is NoPin
            &&& forall|p: Pin| !(p is NoPin) ==> #[trigger] (after.input_on)(p) == (
            machine.input_on)(p)
            &&& forall|p: Pin| !(p is NoPin) ==> #[trigger] (after.push_pull)(p) == (
            machine.push_pull)(p)
            &&& forall|p: Peripheral| #[trigger]
                (after.guards)(p) == (machine.guards)(p) + (if p == info.peripheral {
                    1int
                } else {
                    0
                })
        }),
{
    let powered = machine.step(layout, Effect::AcquireGuard(info.peripheral));
    let configuration = info.init_effects() + info.data_mode_effects(mode);
    let configured = powered.run(layout, configuration);
    let after = machine.run(layout, info.new_effects(mode));
    crate::laws::new_in_steps(machine, layout, info, mode);
    crate::laws::configuration_stays_in_its_block(powered, layout, info, mode);
    init_then_mode(powered, layout, info, mode);
    connecting_nothing(configured, layout, info);
    assert(forall|b: RegisterBlock, r: Register, f: Field| #[trigger]
        after.field(b, r, f) == configured.field(b, r, f));
}

/// A new driver touches registers only while its peripheral is powered.
proof fn new_is_powered(machine: Machine, layout: Layout, info: Info, mode: Mode)
    ensures
        ({
            let effects = info.new_effects(mode);
            forall|i: int|
                0 <= i < effects.len() && #[trigger] effects[i] is Register ==> (machine.run(
                    layout,
                    effects.take(i),
                ).guards)(info.peripheral) == (machine.guards)(info.peripheral) + 1
        }),
{
    let effects = info.new_effects(mode);
    let configuration = info.init_effects() + info.data_mode_effects(mode);
    let pins = info.mosi_effects(Pin::NoPin) + info.miso_effects(Pin::NoPin) + info.sck_effects(
        Pin::NoPin,
    ) + info.cs_effects(Pin::NoPin);
    assert(effects =~= seq![Effect::AcquireGuard(info.peripheral)] + configuration + pins);
    assert(crate::model::stays_in(configuration, info.register_block));
    guard_comes_first(machine, layout, info, configuration, pins);
}

proof fn guard_comes_first(
    machine: Machine,
    layout: Layout,
    info: Info,
    configuration: Seq<Effect<Seq<FieldValue>>>,
    pins: Seq<Effect<Seq<FieldValue>>>,
)
    requires
        crate::model::stays_in(configuration, info.register_block),
        crate::model::no_registers(pins),
    ensures
        ({
            let effects = seq![Effect::AcquireGuard(info.peripheral)] + configuration + pins;
            forall|i: int|
                0 <= i < effects.len() && #[trigger] effects[i] is Register ==> (machine.run(
                    layout,
                    effects.take(i),
                ).guards)(info.peripheral) == (machine.guards)(info.peripheral) + 1
        }),
{
    let guard = seq![Effect::AcquireGuard(info.peripheral)];
    let effects = guard + configuration + pins;
    let powered = machine.run(layout, guard);
    assert(powered == machine.step(layout, Effect::AcquireGuard(info.peripheral))) by {
        reveal_with_fuel(Machine::run, 2);
    }
    assert forall|i: int| 0 <= i < effects.len() && #[trigger] effects[i] is Register implies (
    machine.run(layout, effects.take(i)).guards)(info.peripheral) == (machine.guards)(
        info.peripheral,
    ) + 1 by {
        if i > configuration.len() {
            assert(effects[i] == pins[i - 1 - configuration.len()]);
        }
        let part = configuration.take(i - 1);
        assert(effects.take(i) =~= guard + part);
        crate::model::run_stays_in(powered, layout, part, info.register_block);
    }
}

/// Whether the registers of a controller are those of a slave on one data line each way that has
/// just been initialised and put into an SPI mode.
pub open spec fn initialised_in(after: Machine, info: Info, mode: Mode, layout: Layout) -> bool {
    let block = info.register_block;
    let edge: u32 = if mode is _1 || mode is _2 {
        1
    } else {
        0
    };
    let odd: u32 = if mode is _1 || mode is _3 {
        1
    } else {
        0
    };
    &&& forall|f: Field| #[trigger] after.field(block, Register::Clock, f) == 0
    &&& forall|f: Field| #[trigger] after.field(block, Register::Ctrl, f) == 0
    &&& if info.chip is Esp32 {
        &&& forall|f: Field| #[trigger]
            after.field(block, Register::User, f) == (if f is Doutdin {
                1
            } else if f is CkIEdge {
                edge
            } else {
                0
            })
        &&& forall|f: Field| #[trigger]
            after.field(block, Register::Slave, f) == (if f is Mode || f is SlvWrRdBufEn {
                1
            } else if f is SyncReset {
                0
            } else {
                (layout.reset)(Register::Slave, f)
            })
        &&& after.field(block, Register::Pin, Field::CkIdleEdge) == (if mode is _0 || mode is _1 {
            1u32
        } else {
            0
        })
        &&& after.field(block, Register::Ctrl2, Field::MisoDelayMode) == (match mode {
            Mode::_1 => 2u32,
            Mode::_3 => 1,
            _ => 0,
        })
        &&& after.field(block, Register::Ctrl2, Field::MisoDelayNum) == 0
        &&& after.field(block, Register::Ctrl2, Field::MosiDelayMode) == (match mode {
            Mode::_0 => 2u32,
            Mode::_2 => 1,
            _ => 0,
        })
        &&& after.field(block, Register::Ctrl2, Field::MosiDelayNum) == (match mode {
            Mode::_0 | Mode::_2 => 2u32,
            _ => 0,
        })
    } else {
        &&& forall|f: Field| #[trigger] after.field(block, Register::Misc, f) == 0
        &&& forall|f: Field| #[trigger]
            after.field(block, Register::User, f) == (if f is Doutdin {
                1
            } else if f is TsckIEdge || f is RsckIEdge {
                edge
            } else {
                0
            })
        &&& forall|f: Field| #[trigger]
            after.field(block, Register::Slave, f) == (if f is Mode {
                1
            } else if f is SoftReset {
                0
            } else if f is ClkMode13 && !(info.chip is Esp32s2) {
                odd
            } else {
                (layout.reset)(Register::Slave, f)
            })
        &&& info.chip is Esp32s2 ==> after.field(block, Register::Ctrl1, Field::ClkMode13) == odd
    }
}

proof fn init_then_mode(machine: Machine, layout: Layout, info: Info, mode: Mode)
    requires
        layout.zero_is_zero(),
    ensures
        initialised_in(
            machine.run(layout, info.init_effects() + info.data_mode_effects(mode)),
            info,
            mode,
            layout,
        ),
{
    let initialised = machine.run(layout, info.init_effects());
    crate::laws::init_decides_the_registers(machine, layout, info);
    mode_effects_set_the_mode(initialised, layout, info, mode);
}

proof fn connecting_nothing(machine: Machine, layout: Layout, info: Info)
    ensures
        ({
            let after = machine.run(layout, info.mosi_effects(Pin::NoPin)).run(
                layout,
                info.miso_effects(Pin::NoPin),
            ).run(layout, info.sck_effects(Pin::NoPin)).run(layout, info.cs_effects(Pin::NoPin));
            &&& after.fields == machine.fields
            &&& after.guards == machine.guards
            &&& (after.inputs)(info.sclk) is NoPin && (after.inputs)(info.mosi) is NoPin
            &&& (after.outputs)(info.miso) is NoPin && (after.inputs)(info.cs) is NoPin
            &&& forall|p: Pin| !(p is NoPin) ==> #[trigger] (after.input_on)(p) == (
            machine.input_on)(p)
            &&& forall|p: Pin| !(p is NoPin) ==> #[trigger] (after.push_pull)(p) == (
            machine.push_pull)(p)
        }),
{
    reveal_with_fuel(Machine::run, 3);
}

} // verus!
