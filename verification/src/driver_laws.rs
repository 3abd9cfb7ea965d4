//! What the calls that begin, continue and wait for transfers do, in terms of their arguments.

use crate::dma::{
    Buffer, ChannelRx, ChannelTx, DescriptorChain, DmaDescriptors, DmaError, DmaRequest,
    PeripheralDmaChannel,
};
use crate::effect::{Effect, EffectQueue};
use crate::info::{Info, Poll};
use crate::model::{Layout, Machine};
use crate::register::{Field, FieldValue, Register, RegisterBlock};
use crate::slave::dma::{DmaTransfer, SpiDma, SpiDmaView, StartTransfer, WaitState, WaitStatus};
use crate::slave::start::{DmaDriver, DmaStart};
use crate::slave::{Spi, SpiView};
use crate::spi::{AnySpi, Blocking, DriverMode, Error};
use crate::system::Peripheral;
use vstd::prelude::*;

verus! {

/// Getting the DMA path ready switches a shared DMA engine on both ways, and puts one of the
/// controller's own through a reset. Nothing else changes.
pub proof fn enabling_dma(
    driver: DmaDriver,
    queue: &mut EffectQueue,
    machine: Machine,
    layout: Layout,
)
    requires
        call_ensures(DmaDriver::enable_dma, (&driver, queue), ()),
    ensures
        old(queue)@.is_prefix_of(final(queue)@),
        crate::model::only_registers(
            crate::model::added(old(queue)@, final(queue)@),
            driver.info.register_block,
        ),
        ({
            let new = crate::model::added(old(queue)@, final(queue)@);
            let after = machine.run(layout, new);
            let block = driver.info.register_block;
            let chip = driver.info.chip;
            let own = chip is Esp32 || chip is Esp32s2;
            &&& own ==> exists|k: int|
                #![trigger new.take(k)]
                {
                    let then = machine.run(layout, new.take(k));
                    &&& 0 <= k <= new.len()
                    &&& then.field(block, Register::DmaConf, Field::InRst) == 1
                    &&& then.field(block, Register::DmaConf, Field::OutRst) == 1
                    &&& then.field(block, Register::DmaConf, Field::AhbmFifoRst) == 1
                    &&& then.field(block, Register::DmaConf, Field::AhbmRst) == 1
                    &&& chip is Esp32s2 ==> then.field(
                        block,
                        Register::DmaConf,
                        Field::DmaInfifoFullClr,
                    ) == 1
                }
            &&& after == Machine { fields: after.fields, ..machine }
            &&& forall|b: RegisterBlock, r: Register, f: Field| #[trigger]
                after.field(b, r, f) == (if !(b == block && r is DmaConf) {
                    machine.field(b, r, f)
                } else if own && (f is InRst || f is OutRst || f is AhbmFifoRst || f is AhbmRst) {
                    0
                } else if chip is Esp32s2 && f is DmaInfifoFullClr {
                    0
                } else if !own && (f is DmaTxEna || f is DmaRxEna) {
                    1
                } else if !own && f is RxEofEn {
                    0
                } else {
                    machine.field(b, r, f)
                })
        }),
{
    let new = driver.enable_dma_effects();
    assert(final(queue)@ == old(queue)@ + new);
    crate::model::added_behind(old(queue)@, new);
    crate::model::run_stays_in(machine, layout, new, driver.info.register_block);
    if driver.info.chip.has_pdma() {
        let raise = driver.rst_effects(true);
        assert(new.take(raise.len() as int) =~= raise);
        crate::start_laws::raising(machine, layout, driver);
        crate::model::run_add(machine, layout, raise, driver.rst_effects(false));
    }
    reveal_with_fuel(Machine::run, 3);
    reveal_with_fuel(crate::model::last_value, 5);
}

/// Emptying the FIFOs sets the three bits for it where the DMA engine is shared, and does nothing
/// where it is not.
pub proof fn emptying_fifos(
    driver: DmaDriver,
    queue: &mut EffectQueue,
    machine: Machine,
    layout: Layout,
)
    requires
        call_ensures(DmaDriver::reset_dma_before_usr_cmd, (&driver, queue), ()),
    ensures
        old(queue)@.is_prefix_of(final(queue)@),
        crate::model::only_registers(
            crate::model::added(old(queue)@, final(queue)@),
            driver.info.register_block,
        ),
        driver.info.chip is Esp32 || driver.info.chip is Esp32s2 ==> final(queue)@ == old(queue)@,
        ({
            let new = crate::model::added(old(queue)@, final(queue)@);
            let after = machine.run(layout, new);
            let own = driver.info.chip is Esp32 || driver.info.chip is Esp32s2;
            &&& after == Machine { fields: after.fields, ..machine }
            &&& forall|b: RegisterBlock, r: Register, f: Field| #[trigger]
                after.field(b, r, f) == (if !own && b == driver.info.register_block && r is DmaConf
                    && (f is RxAfifoRst || f is BufAfifoRst || f is DmaAfifoRst) {
                    1
                } else {
                    machine.field(b, r, f)
                })
        }),
{
    let new = driver.reset_dma_effects();
    assert(final(queue)@ == old(queue)@ + new);
    crate::model::added_behind(old(queue)@, new);
    reveal_with_fuel(Machine::run, 2);
    reveal_with_fuel(crate::model::last_value, 4);
}

/// Clearing the interrupts of a transfer takes each of them out of the raw interrupts, by a one in
/// its bit of the clear register. Of that register nothing is kept, and nothing else changes.
pub proof fn clearing_interrupts(
    driver: DmaDriver,
    queue: &mut EffectQueue,
    machine: Machine,
    layout: Layout,
)
    requires
        call_ensures(DmaDriver::clear_dma_interrupts, (&driver, queue), ()),
    ensures
        old(queue)@.is_prefix_of(final(queue)@),
        crate::model::only_registers(
            crate::model::added(old(queue)@, final(queue)@),
            driver.info.register_block,
        ),
        ({
            let new = crate::model::added(old(queue)@, final(queue)@);
            let after = machine.run(layout, new);
            let block = driver.info.register_block;
            let cleared = |f: Field|
                if driver.info.chip is Esp32 || driver.info.chip is Esp32s2 {
                    ||| f is InlinkDscrEmpty || f is OutlinkDscrError || f is InlinkDscrError
                    ||| f is InDone || f is InErrEof || f is InSucEof
                    ||| f is OutDone || f is OutEof || f is OutTotalEof
                } else {
                    ||| f is DmaInfifoFullErr || f is DmaOutfifoEmptyErr || f is TransDone
                    ||| f is MstRxAfifoWfullErr || f is MstTxAfifoRemptyErr
                };
            let reset = |f: Field| (layout.reset)(Register::DmaIntClr, f);
            &&& after == Machine { fields: after.fields, ..machine }
            &&& forall|f: Field|
                cleared(f) ==> #[trigger] after.field(block, Register::DmaIntRaw, f) == 0
                    && after.field(block, Register::DmaIntClr, f) == 1
            &&& forall|f: Field|
                !cleared(f) ==> #[trigger] after.field(block, Register::DmaIntClr, f) == reset(f)
            &&& forall|f: Field|
                !cleared(f) && reset(f) != 1 ==> #[trigger] after.field(
                    block,
                    Register::DmaIntRaw,
                    f,
                ) == machine.field(block, Register::DmaIntRaw, f)
            &&& forall|b: RegisterBlock, r: Register, f: Field|
                !(b == block && (r is DmaIntClr || r is DmaIntRaw)) ==> #[trigger] after.field(
                    b,
                    r,
                    f,
                ) == machine.field(b, r, f)
        }),
{
    let new = driver.clear_interrupts_effects();
    assert(final(queue)@ == old(queue)@ + new);
    crate::model::added_behind(old(queue)@, new);
    reveal_with_fuel(Machine::run, 2);
    reveal_with_fuel(crate::model::last_value, 10);
}

/// A DMA driver is for the controller it was given, uses the channel it was given for both
/// directions, and has each list of descriptors for the direction it was given for. The channel is
/// opened and then checked against that controller, once each, and then the controller is kept
/// powered; what waited before comes first.
pub proof fn making_a_dma_driver(
    queue: EffectQueue,
    spi: AnySpi,
    channel: PeripheralDmaChannel,
    rx_descriptors: DmaDescriptors,
    tx_descriptors: DmaDescriptors,
    this: SpiDma<Blocking>,
)
    requires
        call_ensures(
            SpiDma::<Blocking>::new,
            (queue, spi, channel, rx_descriptors, tx_descriptors),
            this,
        ),
    ensures
        this@.spi == spi,
        this@.channel.rx.channel == channel,
        this@.channel.tx.channel == channel,
        this@.rx_chain.descriptors == rx_descriptors,
        this@.tx_chain.descriptors == tx_descriptors,
        spi is Spi2 ==> this@.guarded is Spi2,
        spi is Spi3 ==> this@.guarded is Spi3,
        queue@.is_prefix_of(this@.effects),
        ({
            let new = crate::model::added(queue@, this@.effects);
            &&& new.len() == 3
            &&& new[0] == Effect::OpenChannel::<Seq<FieldValue>>(channel)
            &&& new[1] matches Effect::EnsureCompatible { channel: checked, peripheral } && {
                &&& checked == channel
                &&& peripheral is Spi2 <==> spi is Spi2
                &&& peripheral is Spi3 <==> spi is Spi3
            }
            &&& new[2] matches Effect::AcquireGuard(peripheral) && {
                &&& peripheral is Spi2 <==> spi is Spi2
                &&& peripheral is Spi3 <==> spi is Spi3
            }
        }),
{
    crate::model::added_behind(queue@, crate::slave::dma::new_dma_effects(spi, channel));
}

/// Making a driver DMA capable keeps its controller, uses the channel for both directions and
/// each list of descriptors for its own, and sets the SPI mode that the driver had. The channel is
/// opened and then checked against the controller, once each. The power and the pins are as before,
/// and a controller that is powered stays so in between.
pub proof fn adding_dma(
    spi: Spi<Blocking>,
    channel: PeripheralDmaChannel,
    rx_descriptors: DmaDescriptors,
    tx_descriptors: DmaDescriptors,
    this: SpiDma<Blocking>,
    machine: Machine,
    layout: Layout,
)
    requires
        spi@.wf(),
        call_ensures(
            Spi::<Blocking>::with_dma,
            (spi, channel, rx_descriptors, tx_descriptors),
            this,
        ),
    ensures
        this@.spi == spi@.spi,
        this@.channel.rx.channel == channel,
        this@.channel.tx.channel == channel,
        this@.rx_chain.descriptors == rx_descriptors,
        this@.tx_chain.descriptors == tx_descriptors,
        this@.guarded == spi@.guarded,
        spi@.effects.is_prefix_of(this@.effects),
        ({
            let new = crate::model::added(spi@.effects, this@.effects);
            let after = machine.run(layout, new);
            &&& crate::setup_laws::mode_is_set(machine, after, spi@.info(), spi@.mode)
            &&& forall|k: int|
                #![trigger new.take(k)]
                0 <= k <= new.len() && (machine.guards)(spi@.guarded) > 0 ==> (machine.run(
                    layout,
                    new.take(k),
                ).guards)(spi@.guarded) > 0
            &&& exists|open: int, check: int|
                #![trigger new[open], new[check]]
                {
                    &&& 0 <= open < check < new.len()
                    &&& new[open] == Effect::OpenChannel::<Seq<FieldValue>>(channel)
                    &&& new[check] matches Effect::EnsureCompatible {
                        channel: checked,
                        peripheral,
                    } && {
                        &&& checked == channel
                        &&& peripheral is Spi2 <==> spi@.spi is Spi2
                        &&& peripheral is Spi3 <==> spi@.spi is Spi3
                    }
                    &&& forall|i: int|
                        0 <= i < new.len() ==> {
                            &&& #[trigger] new[i] is OpenChannel ==> i == open
                            &&& new[i] is EnsureCompatible ==> i == check
                            &&& !(new[i] is Dma)
                        }
                }
        }),
{
    let info = spi@.info();
    let new = crate::slave::dma::with_dma_effects(spi@, channel);
    assert(this@.effects == spi@.effects + new);
    crate::model::added_behind(spi@.effects, new);
    let rest = crate::laws::with_dma_in_parts(machine, layout, spi@, channel);
    crate::laws::with_dma_exchanges_the_guard(machine, layout, spi@, channel);
    crate::setup_laws::mode_effects_set_the_mode(machine, layout, info, spi@.mode);
    let after = machine.run(layout, new);
    assert(after.guards =~= machine.guards);
    assert(after == Machine { fields: after.fields, ..machine });
    let set = machine.run(layout, info.data_mode_effects(spi@.mode));
    assert(forall|b: RegisterBlock, r: Register, f: Field| #[trigger]
        after.field(b, r, f) == set.field(b, r, f));
    assert forall|k: int|
        #![trigger new.take(k)]
        0 <= k <= new.len() && (machine.guards)(spi@.guarded) > 0 implies (machine.run(
        layout,
        new.take(k),
    ).guards)(spi@.guarded) > 0 by {
        crate::laws::with_dma_keeps_the_power_on(machine, layout, spi@, channel, k);
    }
    let mode = info.data_mode_effects(spi@.mode);
    let n = mode.len() as int;
    assert(new[n] == rest[0] && new[n + 1] == rest[1]);
    assert forall|i: int| 0 <= i < new.len() implies {
        &&& #[trigger] new[i] is OpenChannel ==> i == n
        &&& new[i] is EnsureCompatible ==> i == n + 1
        &&& !(new[i] is Dma)
    } by {
        if i < n {
            assert(new[i] == mode[i]);
        } else {
            assert(new[i] == rest[i - n]);
        }
    }
}

/// Ending a driver gives its guard back, after everything that it did, and does nothing else.
pub proof fn ending_a_driver(
    spi: Spi<Blocking>,
    queue: EffectQueue,
    machine: Machine,
    layout: Layout,
)
    requires
        spi@.wf(),
        call_ensures(Spi::<Blocking>::release, (spi,), queue),
    ensures
        spi@.effects.is_prefix_of(queue@),
        powered_down(
            machine,
            machine.run(layout, crate::model::added(spi@.effects, queue@)),
            if spi@.spi is Spi2 {
                Peripheral::Spi2
            } else {
                Peripheral::Spi3
            },
        ),
{
    let end = seq![Effect::ReleaseGuard(spi@.guarded)];
    assert(queue@ =~= spi@.effects + end);
    crate::model::added_behind(spi@.effects, end);
    reveal_with_fuel(Machine::run, 2);
}

/// Ending a DMA driver gives its guard back, after everything that it did, and does nothing else.
pub proof fn ending_a_dma_driver<Dm: DriverMode>(
    spi: SpiDma<Dm>,
    queue: EffectQueue,
    machine: Machine,
    layout: Layout,
)
    requires
        spi@.wf(),
        call_ensures(SpiDma::<Dm>::release, (spi,), queue),
    ensures
        spi@.effects.is_prefix_of(queue@),
        powered_down(
            machine,
            machine.run(layout, crate::model::added(spi@.effects, queue@)),
            if spi@.spi is Spi2 {
                Peripheral::Spi2
            } else {
                Peripheral::Spi3
            },
        ),
{
    let end = seq![Effect::ReleaseGuard(spi@.guarded)];
    assert(queue@ =~= spi@.effects + end);
    crate::model::added_behind(spi@.effects, end);
    reveal_with_fuel(Machine::run, 2);
}

/// Whether one guard less on a peripheral is all that has changed.
pub open spec fn powered_down(before: Machine, after: Machine, peripheral: Peripheral) -> bool {
    &&& after == Machine { guards: after.guards, ..before }
    &&& forall|p: Peripheral| #[trigger]
        (after.guards)(p) == (before.guards)(p) - (if p == peripheral {
            1int
        } else {
            0
        })
}

/// Taking the effects of a driver hands each of them out, in order, and leaves none; otherwise the
/// driver stays as it is.
pub proof fn taking_effects<Dm: DriverMode>(
    spi: &mut SpiDma<Dm>,
    effects: Vec<Effect<Vec<FieldValue>>>,
)
    requires
        call_ensures(SpiDma::<Dm>::take_effects, (spi,), effects),
    ensures
        effects@.len() == old(spi)@.effects.len(),
        forall|i: int|
            0 <= i < effects@.len() ==> (#[trigger] effects@[i])@ == old(spi)@.effects[i],
        final(spi)@.effects.len() == 0,
        final(spi)@ == (SpiDmaView { effects: final(spi)@.effects, ..old(spi)@ }),
{
}

/// A driver can be made DMA capable except on the ESP32 in modes 0 and 2, and says so.
pub proof fn telling_dma_support<Dm: DriverMode>(spi: Spi<Dm>, supported: bool)
    requires
        call_ensures(Spi::<Dm>::supports_dma, (&spi,), supported),
    ensures
        supported <==> !(crate::info::spec_info(spi@.spi).chip is Esp32 && (spi@.mode is _0
            || spi@.mode is _2)),
{
}

/// Taking the effects of a driver hands each of them out, in order, and leaves none; otherwise the
/// driver stays as it is.
pub proof fn taking_setup_effects<Dm: DriverMode>(
    spi: &mut Spi<Dm>,
    effects: Vec<Effect<Vec<FieldValue>>>,
)
    requires
        call_ensures(Spi::<Dm>::take_effects, (spi,), effects),
    ensures
        effects@.len() == old(spi)@.effects.len(),
        forall|i: int|
            0 <= i < effects@.len() ==> (#[trigger] effects@[i])@ == old(spi)@.effects[i],
        final(spi)@.effects.len() == 0,
        final(spi)@ == (SpiView { effects: final(spi)@.effects, ..old(spi)@ }),
{
}

/// A DMA driver names its own controller.
pub proof fn naming_the_controller<Dm: DriverMode>(spi: SpiDma<Dm>, driver: DmaDriver)
    requires
        call_ensures(SpiDma::<Dm>::driver, (&spi,), driver),
    ensures
        driver.info == crate::info::spec_info(spi@.spi),
        driver.info.register_block is Spi2 <==> spi@.spi is Spi2,
        driver.info.register_block is Spi3 <==> spi@.spi is Spi3,
        driver.dma_peripheral is Spi2 <==> spi@.spi is Spi2,
        driver.dma_peripheral is Spi3 <==> spi@.spi is Spi3,
{
}

/// A driver lends its sending half, which can be replaced; nothing else of the driver changes.
pub proof fn lending_tx<Dm: DriverMode>(spi: &mut SpiDma<Dm>, tx: &mut ChannelTx)
    requires
        call_ensures(SpiDma::<Dm>::tx, (spi,), tx),
    ensures
        *old(tx) == old(spi)@.channel.tx,
        final(spi)@.channel.tx == *final(tx),
        final(spi)@.channel.rx == old(spi)@.channel.rx,
        final(spi)@ == (SpiDmaView { channel: final(spi)@.channel, ..old(spi)@ }),
{
}

/// A driver lends its receiving half, which can be replaced; nothing else of the driver changes.
pub proof fn lending_rx<Dm: DriverMode>(spi: &mut SpiDma<Dm>, rx: &mut ChannelRx)
    requires
        call_ensures(SpiDma::<Dm>::rx, (spi,), rx),
    ensures
        *old(rx) == old(spi)@.channel.rx,
        final(spi)@.channel.rx == *final(rx),
        final(spi)@.channel.tx == old(spi)@.channel.tx,
        final(spi)@ == (SpiDmaView { channel: final(spi)@.channel, ..old(spi)@ }),
{
}

/// A driver lends its sending chain, which can be replaced; nothing else of the driver changes.
pub proof fn lending_the_tx_chain<Dm: DriverMode>(
    spi: &mut SpiDma<Dm>,
    chain: &mut DescriptorChain,
)
    requires
        call_ensures(SpiDma::<Dm>::tx_chain, (spi,), chain),
    ensures
        *old(chain) == old(spi)@.tx_chain,
        final(spi)@.tx_chain == *final(chain),
        final(spi)@ == (SpiDmaView { tx_chain: final(spi)@.tx_chain, ..old(spi)@ }),
{
}

/// A driver lends its receiving chain, which can be replaced; nothing else of the driver changes.
pub proof fn lending_the_rx_chain<Dm: DriverMode>(
    spi: &mut SpiDma<Dm>,
    chain: &mut DescriptorChain,
)
    requires
        call_ensures(SpiDma::<Dm>::rx_chain, (spi,), chain),
    ensures
        *old(chain) == old(spi)@.rx_chain,
        final(spi)@.rx_chain == *final(chain),
        final(spi)@ == (SpiDmaView { rx_chain: final(spi)@.rx_chain, ..old(spi)@ }),
{
}

/// A driver may be made DMA capable with any channel that serves its controller, except on the
/// ESP32 in modes 0 and 2.
pub proof fn dma_may_be_added(
    spi: Spi<Blocking>,
    channel: PeripheralDmaChannel,
    rx_descriptors: DmaDescriptors,
    tx_descriptors: DmaDescriptors,
)
    requires
        !(crate::info::spec_info(spi@.spi).chip is Esp32 && (spi@.mode is _0 || spi@.mode is _2)),
        spi@.spi is Spi2 ==> channel.serves_spi2,
        spi@.spi is Spi3 ==> channel.serves_spi3,
    ensures
        call_requires(
            Spi::<Blocking>::with_dma,
            (spi, channel, rx_descriptors, tx_descriptors),
        ),
{
}

/// Beginning a transfer plans it with what it was given, and does what a start does before the
/// DMA engine has answered anything.
pub proof fn beginning_a_start(
    driver: DmaDriver,
    queue: &mut EffectQueue,
    rx_chain: DescriptorChain,
    tx_chain: DescriptorChain,
    read_buffer: Buffer,
    write_buffer: Buffer,
    rx: ChannelRx,
    tx: ChannelTx,
    start: DmaStart,
)
    requires
        call_ensures(
            DmaDriver::start_transfer_dma,
            (&driver, queue, rx_chain, tx_chain, read_buffer, write_buffer, rx, tx),
            start,
        ),
    ensures
        start.driver() == driver,
        start.plan().rx_chain == rx_chain,
        start.plan().tx_chain == tx_chain,
        start.plan().read_buffer == read_buffer,
        start.plan().write_buffer == write_buffer,
        start.plan().rx == rx,
        start.plan().tx == tx,
        start.spec_stage() == start.plan().stage_after_all(seq![]),
        final(queue)@ == old(queue)@ + driver.effects_after_all(start.plan(), seq![]),
{
}

/// Going on with a start takes one more answer: a start that has come as far as some answers take
/// it comes as far as those and the new one take it, and keeps to its plan.
pub proof fn continuing_a_start(
    start: DmaStart,
    queue: &mut EffectQueue,
    result: Result<(), DmaError>,
    next: DmaStart,
    before: Seq<Effect<Seq<FieldValue>>>,
    results: Seq<Result<(), DmaError>>,
)
    requires
        call_ensures(DmaStart::resume, (start, queue, result), next),
        start.spec_stage() == start.plan().stage_after_all(results),
        old(queue)@ == before + start.driver().effects_after_all(start.plan(), results),
    ensures
        next.driver() == start.driver(),
        next.plan() == start.plan(),
        next.spec_stage() == start.plan().stage_after_all(results.push(result)),
        final(queue)@ == before + start.driver().effects_after_all(
            start.plan(),
            results.push(result),
        ),
{
    let all = results.push(result);
    assert(all.drop_last() =~= results);
    let more = start.driver().effects_after(start.plan(), start.spec_stage(), result);
    assert(final(queue)@ == old(queue)@ + more);
    assert(before + start.driver().effects_after_all(start.plan(), results) + more =~= before + (
    start.driver().effects_after_all(start.plan(), results) + more));
}

/// What a driver plans for a transfer between two buffers, and what it does for a start: it gives
/// its own chains and the halves of its own channel, and for its own controller, and otherwise
/// stays as it is.
pub open spec fn begun(
    before: SpiDmaView,
    after: SpiDmaView,
    start: DmaStart,
    results: Seq<Result<(), DmaError>>,
) -> bool {
    let plan = start.plan();
    &&& plan.rx_chain == before.rx_chain
    &&& plan.tx_chain == before.tx_chain
    &&& plan.rx == before.channel.rx
    &&& plan.tx == before.channel.tx
    &&& start.driver().info == crate::info::spec_info(before.spi)
    &&& start.driver().dma_peripheral is Spi2 <==> before.spi is Spi2
    &&& start.driver().dma_peripheral is Spi3 <==> before.spi is Spi3
    &&& start.spec_stage() == plan.stage_after_all(results)
    &&& after.effects == before.effects + start.driver().effects_after_all(plan, results)
    &&& after == SpiDmaView { effects: after.effects, ..before }
}

/// Whatever a driver asks of the DMA engine for a transfer is for its own controller, with its own
/// chains and the halves of its own channel.
pub proof fn drivers_ask_for_their_own(
    before: SpiDmaView,
    after: SpiDmaView,
    start: DmaStart,
    results: Seq<Result<(), DmaError>>,
    i: int,
)
    requires
        begun(before, after, start, results),
        before.effects.len() <= i < after.effects.len(),
    ensures
        match after.effects[i] {
            Effect::Dma(DmaRequest::FillForRx { chain, circular, buffer }) => {
                chain == before.rx_chain && !circular && buffer == start.plan().read_buffer
            },
            Effect::Dma(DmaRequest::FillForTx { chain, circular, buffer }) => {
                chain == before.tx_chain && !circular && buffer == start.plan().write_buffer
            },
            Effect::Dma(DmaRequest::PrepareRx { rx, peripheral, chain }) => {
                &&& rx == before.channel.rx && chain == before.rx_chain
                &&& peripheral is Spi2 <==> before.spi is Spi2
                &&& peripheral is Spi3 <==> before.spi is Spi3
            },
            Effect::Dma(DmaRequest::PrepareTx { tx, peripheral, chain }) => {
                &&& tx == before.channel.tx && chain == before.tx_chain
                &&& peripheral is Spi2 <==> before.spi is Spi2
                &&& peripheral is Spi3 <==> before.spi is Spi3
            },
            Effect::Dma(DmaRequest::StartRx { rx }) => rx == before.channel.rx,
            Effect::Dma(DmaRequest::StartTx { tx }) => tx == before.channel.tx,
            Effect::Register(block, _) => {
                &&& block is Spi2 <==> before.spi is Spi2
                &&& block is Spi3 <==> before.spi is Spi3
            },
            _ => false,
        },
{
    let done = start.driver().effects_after_all(start.plan(), results);
    let k = i - before.effects.len();
    assert(after.effects[i] == done[k]);
    crate::start_laws::requests_keep_to_the_plan(start.driver(), start.plan(), results, k);
}

/// A write sends the buffer and receives nothing. One of more than 32736 bytes is refused, and
/// nothing happens.
pub proof fn writing<Dm: DriverMode>(
    spi: &mut SpiDma<Dm>,
    words: Buffer,
    result: Result<StartTransfer, Error>,
)
    requires
        call_ensures(SpiDma::<Dm>::write, (spi, &words), result),
    ensures
        result is Ok <==> words.len <= 32736,
        result matches Ok(start) ==> {
            &&& start.transfer is Tx
            &&& start.start.plan().write_buffer == words
            &&& start.start.plan().read_buffer == (Buffer { addr: 0, len: 0 })
            &&& begun(old(spi)@, final(spi)@, start.start, seq![])
        },
        result matches Err(error) ==> error is MaxDmaTransferSizeExceeded && final(spi)@
            == old(spi)@,
{
}

/// A read receives into the buffer and sends nothing. One of more than 32736 bytes is refused,
/// and nothing happens.
pub proof fn reading<Dm: DriverMode>(
    spi: &mut SpiDma<Dm>,
    words: Buffer,
    result: Result<StartTransfer, Error>,
)
    requires
        call_ensures(SpiDma::<Dm>::read, (spi, &words), result),
    ensures
        result is Ok <==> words.len <= 32736,
        result matches Ok(start) ==> {
            &&& start.transfer is Rx
            &&& start.start.plan().read_buffer == words
            &&& start.start.plan().write_buffer == (Buffer { addr: 0, len: 0 })
            &&& begun(old(spi)@, final(spi)@, start.start, seq![])
        },
        result matches Err(error) ==> error is MaxDmaTransferSizeExceeded && final(spi)@
            == old(spi)@,
{
}

/// A transfer receives into one buffer and sends the other. It is refused if either is of more
/// than 32736 bytes, and then nothing happens.
pub proof fn transferring<Dm: DriverMode>(
    spi: &mut SpiDma<Dm>,
    read_buffer: Buffer,
    words: Buffer,
    result: Result<StartTransfer, Error>,
)
    requires
        call_ensures(SpiDma::<Dm>::transfer, (spi, &read_buffer, &words), result),
    ensures
        result is Ok <==> words.len <= 32736 && read_buffer.len <= 32736,
        result matches Ok(start) ==> {
            &&& start.transfer is RxTx
            &&& start.start.plan().read_buffer == read_buffer
            &&& start.start.plan().write_buffer == words
            &&& begun(old(spi)@, final(spi)@, start.start, seq![])
        },
        result matches Err(error) ==> error is MaxDmaTransferSizeExceeded && final(spi)@
            == old(spi)@,
{
}

/// A driver that goes on with the start of a transfer takes one more answer, and otherwise stays
/// as it is.
pub proof fn continuing<Dm: DriverMode>(
    spi: &mut SpiDma<Dm>,
    start: StartTransfer,
    result: Result<(), DmaError>,
    next: StartTransfer,
    before: SpiDmaView,
    results: Seq<Result<(), DmaError>>,
)
    requires
        call_ensures(SpiDma::<Dm>::resume, (spi, start, result), next),
        begun(before, old(spi)@, start.start, results),
    ensures
        next.transfer == start.transfer,
        next.start.plan() == start.start.plan(),
        begun(before, final(spi)@, next.start, results.push(result)),
{
    let driver = start.start.driver();
    let plan = start.start.plan();
    assert(results.push(result).drop_last() =~= results);
    let more = driver.effects_after(plan, start.start.spec_stage(), result);
    assert(final(spi)@.effects == old(spi)@.effects + more);
    assert(before.effects + driver.effects_after_all(plan, results) + more =~= before.effects + (
    driver.effects_after_all(plan, results) + more));
}

/// A transfer has started exactly when every answer was a success and there were three for each
/// direction that has data; the kind of transfer is then handed out. It has failed exactly when
/// there was a fault among those answers, and the first one is handed out. Otherwise the start is
/// still under way.
pub proof fn polling(
    start: StartTransfer,
    poll: Poll<Result<DmaTransfer, Error>>,
    results: Seq<Result<(), DmaError>>,
)
    requires
        call_ensures(StartTransfer::poll, (&start,), poll),
        start.start.spec_stage() == start.start.plan().stage_after_all(results),
    ensures
        ({
            let plan = start.start.plan();
            let needed = (if plan.read_buffer.len > 0 {
                3int
            } else {
                0
            }) + (if plan.write_buffer.len > 0 {
                3int
            } else {
                0
            });
            let all_succeed = forall|i: int|
                0 <= i < results.len() && i < needed ==> #[trigger] results[i] is Ok;
            &&& all_succeed && results.len() >= needed ==> poll == Poll::Ready(
                Ok::<DmaTransfer, Error>(start.transfer),
            )
            &&& all_succeed && results.len() < needed ==> poll is Pending
            &&& forall|first: int|
                0 <= first < results.len() && first < needed && (#[trigger] results[first]) is Err
                    && (forall|i: int| 0 <= i < first ==> #[trigger] results[i] is Ok) ==> poll
                    == Poll::Ready(
                    Err::<DmaTransfer, Error>(Error::DmaError(results[first]->Err_0)),
                )
        }),
{
    let plan = start.start.plan();
    let needed = plan.stages().len();
    crate::transfer_laws::stages_in_order(plan);
    if forall|i: int| 0 <= i < results.len() && i < needed ==> #[trigger] results[i] is Ok {
        crate::transfer_laws::successes_start_the_transfer(plan, results);
    }
    assert forall|first: int|
        0 <= first < results.len() && first < needed && (#[trigger] results[first]) is Err && (
        forall|i: int| 0 <= i < first ==> #[trigger] results[i] is Ok) implies poll == Poll::Ready(
        Err::<DmaTransfer, Error>(Error::DmaError(results[first]->Err_0)),
    ) by {
        crate::transfer_laws::first_fault_ends_the_start(
            start.start.driver(),
            plan,
            results,
            first,
        );
    }
}

/// A wait leaves the transfer behind at a look at which every half of the channel that is waited
/// for is done and the controller's own flag says that the transaction is, and at no other. It
/// then ends at the next look at which the flag is set, whatever the channel says, and stays ended.
pub proof fn waiting<Dm: DriverMode>(
    spi: SpiDma<Dm>,
    is_rx: bool,
    is_tx: bool,
    state: WaitState,
    status: WaitStatus,
    next: WaitState,
)
    requires
        call_ensures(
            SpiDma::<Dm>::peripheral_wait_dma,
            (&spi, is_rx, is_tx, state, &status),
            next,
        ),
    ensures
        ({
            let chip = crate::info::spec_info(spi@.spi).chip;
            let done = if chip is Esp32 || chip is Esp32s2 {
                status.bus.slave_trans_done
            } else {
                status.bus.dma_int_raw_trans_done
            };
            match state {
                WaitState::Transferring => {
                    &&& next is Flushing <==> (is_rx ==> status.rx_done) && (is_tx
                        ==> status.tx_done) && done
                    &&& next is Flushing || next is Transferring
                },
                WaitState::Flushing => {
                    &&& next is Done <==> done
                    &&& next is Done || next is Flushing
                },
                WaitState::Done => next is Done,
            }
        }),
{
}

/// A wait that has looked at the hardware some times has left the transfer behind exactly if at
/// one of the looks every half of the channel that is waited for was done with the controller's
/// flag set, and is over exactly if the flag was set at a later look, too.
pub proof fn waits_in_full(
    info: Info,
    is_rx: bool,
    is_tx: bool,
    looks: Seq<WaitStatus>,
)
    ensures
        ({
            let flag = |look: WaitStatus|
                if info.chip is Esp32 || info.chip is Esp32s2 {
                    look.bus.slave_trans_done
                } else {
                    look.bus.dma_int_raw_trans_done
                };
            let state = crate::transfer_laws::wait_after(info, is_rx, is_tx, looks);
            &&& !(state is Transferring) <==> exists|i: int|
                0 <= i < looks.len() && (is_rx ==> looks[i].rx_done) && (is_tx ==> looks[i].tx_done)
                    && flag(#[trigger] looks[i])
            &&& state is Done <==> exists|i: int, j: int|
                0 <= i < j < looks.len() && (is_rx ==> looks[i].rx_done) && (is_tx
                    ==> looks[i].tx_done) && flag(#[trigger] looks[i]) && flag(#[trigger] looks[j])
        }),
{
    crate::transfer_laws::wait_ends_with_the_transfer(info, is_rx, is_tx, looks);
}

} // verus!
