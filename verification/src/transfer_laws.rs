//! What holds of transfers: how they are started, and how their end is waited for.

use crate::chip::Chip;
use crate::dma::DmaError;
use crate::effect::Effect;
use crate::info::Info;
use crate::model::{Layout, Machine};
use crate::register::{clear_bit, Field, FieldValue, Register, RegisterBlock};
use crate::slave::dma::{WaitState, WaitStatus};
use crate::slave::start::{DmaDriver, Stage, TransferPlan};
use crate::spi::Mode;
use vstd::prelude::*;

verus! {

broadcast use crate::model::run_add;

/// The positions of the stages lie in the program, in order, each behind the stage's request.
pub proof fn positions(driver: DmaDriver, plan: TransferPlan, stage: Stage)
    requires
        plan.has_stage(stage),
        !(stage is Failed),
    ensures
        0 <= driver.position(plan, stage) <= driver.position(plan, plan.next_stage(stage))
            <= driver.program(plan).len(),
        plan.has_stage(plan.next_stage(stage)),
        stage is Started ==> driver.position(plan, stage) == driver.program(plan).len(),
        !(stage is Started) ==> driver.position(plan, stage) > 0 && driver.program(
            plan,
        )[driver.position(plan, stage) - 1] == Effect::Dma::<Seq<FieldValue>>(
            driver.request(plan, stage),
        ),
{
}

/// The start of a transfer does what its program says, in order, up to the request that the DMA
/// engine has yet to answer. When it has started, all of the program is done.
pub proof fn start_follows_the_program(
    driver: DmaDriver,
    plan: TransferPlan,
    results: Seq<Result<(), DmaError>>,
)
    ensures
        ({
            let done = driver.effects_after_all(plan, results);
            let stage = plan.stage_after_all(results);
            &&& plan.has_stage(stage)
            &&& done.is_prefix_of(driver.program(plan))
            &&& stage is Started ==> done == driver.program(plan)
            &&& !(stage is Started || stage is Failed) ==> done == driver.program(plan).take(
                driver.position(plan, stage),
            ) && done.len() > 0 && done.last() == Effect::Dma::<Seq<FieldValue>>(
                driver.request(plan, stage),
            )
        }),
    decreases results.len(),
{
    positions(driver, plan, plan.first_stage());
    if results.len() > 0 {
        let before = plan.stage_after_all(results.drop_last());
        start_follows_the_program(driver, plan, results.drop_last());
        if !(before is Failed) {
            positions(driver, plan, before);
            let next = plan.stage_after(before, results.last());
            if !(next is Failed) {
                positions(driver, plan, next);
                let program = driver.program(plan);
                let from = driver.position(plan, before);
                let to = driver.position(plan, next);
                assert(program.take(from) + program.subrange(from, to) =~= program.take(to));
            }
        }
    }
}

/// The list of stages is the order in which they follow one another.
pub proof fn stages_in_order(plan: TransferPlan)
    ensures
        plan.stages().len() == 0 ==> plan.first_stage() == Stage::Started,
        plan.stages().len() > 0 ==> plan.first_stage() == plan.stages()[0] && plan.next_stage(
            plan.stages().last(),
        ) == Stage::Started,
        forall|i: int|
            0 <= i < plan.stages().len() - 1 ==> plan.next_stage(#[trigger] plan.stages()[i])
                == plan.stages()[i + 1],
        forall|i: int|
            0 <= i < plan.stages().len() ==> !(#[trigger] plan.stages()[i] is Started)
                && !(plan.stages()[i] is Failed) && plan.has_stage(plan.stages()[i]),
{
}

/// As long as the DMA engine succeeds, the start goes from stage to stage, and after the last one
/// the transfer has started.
pub proof fn successes_start_the_transfer(plan: TransferPlan, results: Seq<Result<(), DmaError>>)
    requires
        forall|i: int|
            0 <= i < results.len() && i < plan.stages().len() ==> #[trigger] results[i] is Ok,
    ensures
        plan.stage_after_all(results) == (if results.len() < plan.stages().len() {
            plan.stages()[results.len() as int]
        } else {
            Stage::Started
        }),
    decreases results.len(),
{
    stages_in_order(plan);
    if results.len() > 0 {
        let earlier = results.drop_last();
        assert forall|i: int| 0 <= i < earlier.len() && i < plan.stages().len() implies #[trigger]
            earlier[i] is Ok by {
            assert(results[i] is Ok);
        }
        successes_start_the_transfer(plan, earlier);
        if earlier.len() < plan.stages().len() {
            assert(results.last() == results[earlier.len() as int]);
            assert(plan.stage_after_all(results) == plan.next_stage(
                plan.stages()[earlier.len() as int],
            ));
        }
    }
}

/// The first fault that the DMA engine reports ends the start: that fault is the outcome whatever
/// the engine says later, and nothing is done after the request that failed.
pub proof fn first_fault_ends_the_start(
    driver: DmaDriver,
    plan: TransferPlan,
    results: Seq<Result<(), DmaError>>,
    first: int,
)
    requires
        0 <= first < results.len(),
        first < plan.stages().len(),
        results[first] is Err,
        forall|i: int| 0 <= i < first ==> #[trigger] results[i] is Ok,
    ensures
        plan.stage_after_all(results) == Stage::Failed(results[first]->Err_0),
        driver.effects_after_all(plan, results) == driver.program(plan).take(
            driver.position(plan, plan.stages()[first]),
        ),
    decreases results.len(),
{
    let earlier = results.drop_last();
    stages_in_order(plan);
    if first < earlier.len() {
        assert forall|i: int| 0 <= i < first implies #[trigger] earlier[i] is Ok by {
            assert(results[i] is Ok);
        }
        first_fault_ends_the_start(driver, plan, earlier, first);
    } else {
        assert forall|i: int| 0 <= i < earlier.len() && i < plan.stages().len() implies #[trigger]
            earlier[i] is Ok by {
            assert(results[i] is Ok);
        }
        successes_start_the_transfer(plan, earlier);
        start_follows_the_program(driver, plan, earlier);
        assert(results.last() == results[first]);
    }
}

/// The controller is let go, and the halves of the channel are started, only once the DMA engine
/// has succeeded in everything that prepares the transfer.
pub proof fn nothing_starts_unprepared(
    driver: DmaDriver,
    plan: TransferPlan,
    results: Seq<Result<(), DmaError>>,
)
    requires
        ({
            let done = driver.effects_after_all(plan, results);
            ||| done.contains(driver.go_effect())
            ||| done.contains(Effect::Dma(driver.request(plan, Stage::StartRx)))
            ||| done.contains(Effect::Dma(driver.request(plan, Stage::StartTx)))
        }),
    ensures
        results.len() >= plan.preparations(),
        forall|i: int| 0 <= i < plan.preparations() ==> #[trigger] results[i] is Ok,
{
    let done = driver.effects_after_all(plan, results);
    stages_in_order(plan);
    if exists|k: int|
        #![trigger results[k]]
        0 <= k < results.len() && k < plan.preparations() && results[k] is Err {
        let some = choose|k: int|
            #![trigger results[k]]
            0 <= k < results.len() && k < plan.preparations() && results[k] is Err;
        let first = first_fault(results, some);
        first_fault_ends_the_start(driver, plan, results, first);
        unarmed(driver, plan, first);
        assert(!done.contains(driver.go_effect()));
    } else if results.len() < plan.preparations() {
        let reached = results.len() as int;
        successes_start_the_transfer(plan, results);
        start_follows_the_program(driver, plan, results);
        unarmed(driver, plan, reached);
        assert(!done.contains(driver.go_effect()));
    }
}

/// Where the first fault is, when there is one.
proof fn first_fault(results: Seq<Result<(), DmaError>>, some: int) -> (first: int)
    requires
        0 <= some < results.len(),
        results[some] is Err,
    ensures
        0 <= first <= some,
        results[first] is Err,
        forall|i: int| 0 <= i < first ==> #[trigger] results[i] is Ok,
    decreases some,
{
    if exists|k: int| #![trigger results[k]] 0 <= k < some && results[k] is Err {
        let k = choose|k: int| #![trigger results[k]] 0 <= k < some && results[k] is Err;
        first_fault(results, k)
    } else {
        some
    }
}

/// What is done up to a stage that prepares the transfer neither lets the controller go nor starts
/// a half of the channel.
proof fn unarmed(driver: DmaDriver, plan: TransferPlan, index: int)
    requires
        0 <= index < plan.preparations(),
    ensures
        ({
            let done = driver.program(plan).take(driver.position(plan, plan.stages()[index]));
            &&& !done.contains(driver.go_effect())
            &&& !done.contains(Effect::Dma(driver.request(plan, Stage::StartRx)))
            &&& !done.contains(Effect::Dma(driver.request(plan, Stage::StartTx)))
        }),
{
    let stage = plan.stages()[index];
    assert(driver.position(plan, stage) <= driver.setup_effects().len() + driver.rx_effects(
        plan,
    ).len() + driver.tx_effects(plan).len());
}

/// Starting a transfer touches the registers of the driver's own controller, and nothing else but
/// the DMA engine.
pub proof fn start_stays_in_its_block(
    machine: Machine,
    layout: Layout,
    driver: DmaDriver,
    plan: TransferPlan,
    results: Seq<Result<(), DmaError>>,
)
    ensures
        ({
            let after = machine.run(layout, driver.effects_after_all(plan, results));
            &&& after == Machine { fields: after.fields, ..machine }
            &&& forall|b: RegisterBlock, r: Register, f: Field|
                b != driver.info.register_block ==> #[trigger] after.field(b, r, f)
                    == machine.field(b, r, f)
        }),
{
    let done = driver.effects_after_all(plan, results);
    let program = driver.program(plan);
    start_follows_the_program(driver, plan, results);
    program_stays_in_its_block(driver, plan);
    assert forall|i: int| 0 <= i < done.len() implies (#[trigger] done[i] is Dma || (
    done[i] is Register && done[i]->Register_0 == driver.info.register_block)) by {
        assert(done[i] == program[i]);
    }
    crate::model::run_stays_in(machine, layout, done, driver.info.register_block);
}

/// The program is made of accesses to the driver's own block and of requests to the DMA engine.
pub proof fn program_stays_in_its_block(driver: DmaDriver, plan: TransferPlan)
    ensures
        crate::model::stays_in(driver.program(plan), driver.info.register_block),
{
    let block = driver.info.register_block;
    assert(crate::model::stays_in(driver.setup_effects(), block));
    assert(crate::model::stays_in(driver.rx_effects(plan) + driver.tx_effects(plan), block));
    assert(crate::model::stays_in(driver.arm_effects(plan), block));
    assert(crate::model::stays_in(driver.start_effects(plan), block));
    assert(driver.program(plan) =~= driver.setup_effects() + (driver.rx_effects(plan)
        + driver.tx_effects(plan)) + driver.arm_effects(plan) + driver.start_effects(plan));
}

/// The fields that getting the DMA path ready decides.
pub open spec fn enable_field(info: Info, field: Field) -> bool {
    if info.chip.has_gdma() {
        field == Field::DmaTxEna || field == Field::DmaRxEna || field == Field::RxEofEn
    } else {
        ||| field == Field::InRst || field == Field::OutRst
        ||| field == Field::AhbmFifoRst || field == Field::AhbmRst
        ||| info.chip == Chip::Esp32s2 && field == Field::DmaInfifoFullClr
    }
}

/// The fields that starting a transfer decides.
pub open spec fn start_field(info: Info, register: Register, field: Field) -> bool {
    match register {
        Register::Cmd => field == Field::Usr,
        Register::DmaIntClr | Register::DmaIntRaw => true,
        Register::Slave => {
            ||| info.chip == Chip::Esp32 && field == Field::SyncReset
            ||| info.chip != Chip::Esp32 && field == Field::SoftReset
            ||| (info.chip == Chip::Esp32 || info.chip == Chip::Esp32s2) && field
                == Field::TransDone
        },
        Register::SlvRdbufDlen | Register::SlvWrbufDlen => info.chip == Chip::Esp32,
        Register::User => info.chip == Chip::Esp32 && (field == Field::UsrMosi || field
            == Field::UsrMiso),
        Register::DmaConf => {
            ||| enable_field(info, field)
            ||| info.chip != Chip::Esp32 && field == Field::DmaSlvSegTransEn
            ||| info.chip.has_gdma() && (field == Field::RxAfifoRst || field == Field::BufAfifoRst
                || field == Field::DmaAfifoRst)
        },
        _ => false,
    }
}

/// Starting a transfer leaves everything alone that is not its own: in particular the driver's
/// configuration, full duplex on one line each way, in the same SPI mode, as a slave.
pub proof fn start_keeps_the_configuration(
    machine: Machine,
    layout: Layout,
    driver: DmaDriver,
    plan: TransferPlan,
    results: Seq<Result<(), DmaError>>,
    register: Register,
    field: Field,
)
    requires
        !start_field(driver.info, register, field),
    ensures
        machine.run(layout, driver.effects_after_all(plan, results)).field(
            driver.info.register_block,
            register,
            field,
        ) == machine.field(driver.info.register_block, register, field),
{
    let done = driver.effects_after_all(plan, results);
    let program = driver.program(plan);
    let block = driver.info.register_block;
    start_follows_the_program(driver, plan, results);
    program_touches(driver, plan, register, field);
    assert forall|i: int| 0 <= i < done.len() implies !crate::model::touches(
        #[trigger] done[i],
        block,
        register,
        field,
    ) by {
        assert(done[i] == program[i]);
    }
    crate::model::run_untouched(machine, layout, done, block, register, field);
}

/// A configured controller stays so through the start of any transfer, whatever comes of it.
pub proof fn transfers_keep_the_configuration(
    machine: Machine,
    layout: Layout,
    driver: DmaDriver,
    plan: TransferPlan,
    results: Seq<Result<(), DmaError>>,
    mode: Mode,
)
    requires
        crate::laws::configured(machine, driver.info, mode),
    ensures
        crate::laws::configured(
            machine.run(layout, driver.effects_after_all(plan, results)),
            driver.info,
            mode,
        ),
{
    let after = machine.run(layout, driver.effects_after_all(plan, results));
    let block = driver.info.register_block;
    assert forall|r: Register, f: Field|
        !start_field(driver.info, r, f) implies #[trigger] after.field(block, r, f)
        == machine.field(block, r, f) by {
        start_keeps_the_configuration(machine, layout, driver, plan, results, r, f);
    }
}

#[verifier::rlimit(30)]
proof fn program_touches(
    driver: DmaDriver,
    plan: TransferPlan,
    register: Register,
    field: Field,
)
    requires
        !start_field(driver.info, register, field),
    ensures
        forall|i: int|
            0 <= i < driver.program(plan).len() ==> !crate::model::touches(
                #[trigger] driver.program(plan)[i],
                driver.info.register_block,
                register,
                field,
            ),
{
    reveal_with_fuel(crate::model::last_value, 5);
}

/// Whether the controller has been let go and nothing has failed.
pub open spec fn underway(stage: Stage) -> bool {
    stage is StartRx || stage is StartTx || stage is Started
}

/// By the time a transfer is under way, the controller has been armed, and then only the DMA
/// engine has been asked for something.
pub proof fn underway_is_armed(
    machine: Machine,
    layout: Layout,
    driver: DmaDriver,
    plan: TransferPlan,
    results: Seq<Result<(), DmaError>>,
)
    requires
        underway(plan.stage_after_all(results)),
    ensures
        machine.run(layout, driver.effects_after_all(plan, results)).fields == machine.run(
            layout,
            driver.setup_effects(),
        ).run(layout, driver.rx_effects(plan) + driver.tx_effects(plan)).run(
            layout,
            driver.arm_effects(plan),
        ).fields,
        machine.run(layout, driver.setup_effects()).run(
            layout,
            driver.rx_effects(plan) + driver.tx_effects(plan),
        ).fields == machine.run(layout, driver.setup_effects()).fields,
{
    let done = driver.effects_after_all(plan, results);
    let stage = plan.stage_after_all(results);
    start_follows_the_program(driver, plan, results);
    let requests = driver.rx_effects(plan) + driver.tx_effects(plan);
    let set_up = machine.run(layout, driver.setup_effects());
    crate::model::run_no_registers(set_up, layout, requests);
    let armed = set_up.run(layout, requests).run(layout, driver.arm_effects(plan));
    let tail = driver.start_effects(plan).take(
        done.len() - driver.setup_effects().len() - requests.len() - driver.arm_effects(plan).len(),
    );
    positions(driver, plan, stage);
    assert(done =~= driver.setup_effects() + requests + driver.arm_effects(plan) + tail);
    crate::model::run_no_registers(armed, layout, tail);
}

/// While a transfer is under way and the hardware has not said otherwise, the bus is busy: waiting
/// for the bus waits for this transfer, not for an earlier one.
pub proof fn started_transfer_is_waited_for(
    machine: Machine,
    layout: Layout,
    driver: DmaDriver,
    plan: TransferPlan,
    results: Seq<Result<(), DmaError>>,
)
    requires
        underway(plan.stage_after_all(results)),
    ensures
        driver.info.bus_busy(
            machine.run(layout, driver.effects_after_all(plan, results)).bus_status(
                driver.info.register_block,
            ),
        ),
{
    underway_is_armed(machine, layout, driver, plan, results);
    let prepared = machine.run(layout, driver.setup_effects()).run(
        layout,
        driver.rx_effects(plan) + driver.tx_effects(plan),
    );
    let flush = driver.info.setup_for_flush_effects();
    let arm = driver.arm_effects(plan);
    let early = arm.take(arm.len() - 2);
    assert(arm =~= early + flush + seq![driver.go_effect()]);
    let before = prepared.run(layout, early);
    flush_sees_a_new_transfer(before, layout, driver.info);
    reveal_with_fuel(Machine::run, 2);
}

/// Clearing the transaction-done flag makes the bus count as busy.
pub proof fn flush_sees_a_new_transfer(machine: Machine, layout: Layout, info: Info)
    ensures
        info.bus_busy(
            machine.run(layout, info.setup_for_flush_effects()).bus_status(info.register_block),
        ),
{
    reveal_with_fuel(Machine::run, 2);
    reveal_with_fuel(crate::model::last_value, 2);
}

/// On chips that can do segmented transfers, a transfer that is under way is a single one.
pub proof fn transfers_are_not_segmented(
    machine: Machine,
    layout: Layout,
    driver: DmaDriver,
    plan: TransferPlan,
    results: Seq<Result<(), DmaError>>,
)
    requires
        driver.info.chip != Chip::Esp32,
        underway(plan.stage_after_all(results)),
    ensures
        machine.run(layout, driver.effects_after_all(plan, results)).field(
            driver.info.register_block,
            Register::DmaConf,
            Field::DmaSlvSegTransEn,
        ) == 0,
{
    underway_is_armed(machine, layout, driver, plan, results);
    let prepared = machine.run(layout, driver.setup_effects()).run(
        layout,
        driver.rx_effects(plan) + driver.tx_effects(plan),
    );
    let block = driver.info.register_block;
    let arm = driver.arm_effects(plan);
    let early = driver.reset_dma_effects();
    let single = seq![
        Effect::modify(block, Register::DmaConf, seq![clear_bit(Field::DmaSlvSegTransEn)]),
    ];
    let late = driver.clear_interrupts_effects() + driver.info.setup_for_flush_effects() + seq![
        driver.go_effect(),
    ];
    assert(arm =~= early + single + late);
    let before = prepared.run(layout, early);
    reveal_with_fuel(Machine::run, 2);
    reveal_with_fuel(crate::model::last_value, 2);
    crate::model::run_untouched(
        before.run(layout, single),
        layout,
        late,
        block,
        Register::DmaConf,
        Field::DmaSlvSegTransEn,
    );
}

/// When a transfer is under way, the DMA path is in working order: where the engine is shared, it
/// is switched on both ways and does not stop at a frame's end; where it is the controller's own,
/// it is out of reset.
pub proof fn dma_path_works(
    machine: Machine,
    layout: Layout,
    driver: DmaDriver,
    plan: TransferPlan,
    results: Seq<Result<(), DmaError>>,
)
    requires
        underway(plan.stage_after_all(results)),
    ensures
        ({
            let after = machine.run(layout, driver.effects_after_all(plan, results));
            let block = driver.info.register_block;
            if driver.info.chip.has_gdma() {
                &&& after.field(block, Register::DmaConf, Field::DmaTxEna) == 1
                &&& after.field(block, Register::DmaConf, Field::DmaRxEna) == 1
                &&& after.field(block, Register::DmaConf, Field::RxEofEn) == 0
            } else {
                &&& after.field(block, Register::DmaConf, Field::InRst) == 0
                &&& after.field(block, Register::DmaConf, Field::OutRst) == 0
                &&& after.field(block, Register::DmaConf, Field::AhbmFifoRst) == 0
                &&& after.field(block, Register::DmaConf, Field::AhbmRst) == 0
                &&& driver.info.chip == Chip::Esp32s2 ==> after.field(
                    block,
                    Register::DmaConf,
                    Field::DmaInfifoFullClr,
                ) == 0
            }
        }),
{
    underway_is_armed(machine, layout, driver, plan, results);
    let block = driver.info.register_block;
    let set_up = machine.run(layout, driver.setup_effects());
    let prepared = set_up.run(layout, driver.rx_effects(plan) + driver.tx_effects(plan));
    let enabled = machine.run(layout, driver.enable_dma_effects());
    let after = machine.run(layout, driver.effects_after_all(plan, results));
    crate::laws::reset_is_a_pulse(enabled, layout, driver.info);
    assert forall|f: Field| enable_field(driver.info, f) implies #[trigger] after.field(
        block,
        Register::DmaConf,
        f,
    ) == enabled.field(block, Register::DmaConf, f) by {
        arm_touches(driver, plan, f);
        crate::model::run_untouched(
            prepared,
            layout,
            driver.arm_effects(plan),
            block,
            Register::DmaConf,
            f,
        );
        assert(set_up.field(block, Register::DmaConf, f) == enabled.field(
            block,
            Register::DmaConf,
            f,
        ));
        assert(prepared.field(block, Register::DmaConf, f) == set_up.field(
            block,
            Register::DmaConf,
            f,
        ));
        assert(prepared.run(layout, driver.arm_effects(plan)).field(block, Register::DmaConf, f)
            == after.field(block, Register::DmaConf, f));
    }
    enabling(machine, layout, driver);
}

proof fn arm_touches(driver: DmaDriver, plan: TransferPlan, field: Field)
    requires
        enable_field(driver.info, field),
    ensures
        forall|i: int|
            0 <= i < driver.arm_effects(plan).len() ==> !crate::model::touches(
                #[trigger] driver.arm_effects(plan)[i],
                driver.info.register_block,
                Register::DmaConf,
                field,
            ),
{
    reveal_with_fuel(crate::model::last_value, 4);
}

/// Getting the DMA path ready leaves a shared engine switched on, and the controller's own out of
/// reset.
pub proof fn enabling(machine: Machine, layout: Layout, driver: DmaDriver)
    ensures
        ({
            let after = machine.run(layout, driver.enable_dma_effects());
            let block = driver.info.register_block;
            if driver.info.chip.has_gdma() {
                &&& after.field(block, Register::DmaConf, Field::DmaTxEna) == 1
                &&& after.field(block, Register::DmaConf, Field::DmaRxEna) == 1
                &&& after.field(block, Register::DmaConf, Field::RxEofEn) == 0
            } else {
                &&& after.field(block, Register::DmaConf, Field::InRst) == 0
                &&& after.field(block, Register::DmaConf, Field::OutRst) == 0
                &&& after.field(block, Register::DmaConf, Field::AhbmFifoRst) == 0
                &&& after.field(block, Register::DmaConf, Field::AhbmRst) == 0
                &&& driver.info.chip == Chip::Esp32s2 ==> after.field(
                    block,
                    Register::DmaConf,
                    Field::DmaInfifoFullClr,
                ) == 0
            }
        }),
{
    reveal_with_fuel(Machine::run, 3);
    reveal_with_fuel(crate::model::last_value, 5);
}

/// The interrupts that a transfer can raise and the driver clears.
pub open spec fn transfer_interrupt(info: Info, field: Field) -> bool {
    if info.chip.has_gdma() {
        ||| field == Field::DmaInfifoFullErr
        ||| field == Field::DmaOutfifoEmptyErr
        ||| field == Field::TransDone
        ||| field == Field::MstRxAfifoWfullErr
        ||| field == Field::MstTxAfifoRemptyErr
    } else {
        ||| field == Field::InlinkDscrEmpty
        ||| field == Field::OutlinkDscrError
        ||| field == Field::InlinkDscrError
        ||| field == Field::InDone
        ||| field == Field::InErrEof
        ||| field == Field::InSucEof
        ||| field == Field::OutDone
        ||| field == Field::OutEof
        ||| field == Field::OutTotalEof
    }
}

/// No interrupt of an earlier transfer is left when a transfer is under way.
pub proof fn interrupts_are_new(
    machine: Machine,
    layout: Layout,
    driver: DmaDriver,
    plan: TransferPlan,
    results: Seq<Result<(), DmaError>>,
    field: Field,
)
    requires
        underway(plan.stage_after_all(results)),
        transfer_interrupt(driver.info, field),
    ensures
        machine.run(layout, driver.effects_after_all(plan, results)).field(
            driver.info.register_block,
            Register::DmaIntRaw,
            field,
        ) == 0,
{
    underway_is_armed(machine, layout, driver, plan, results);
    let prepared = machine.run(layout, driver.setup_effects()).run(
        layout,
        driver.rx_effects(plan) + driver.tx_effects(plan),
    );
    let block = driver.info.register_block;
    let arm = driver.arm_effects(plan);
    let early = arm.take(arm.len() - 3);
    let clear = driver.clear_interrupts_effects();
    let flush = driver.info.setup_for_flush_effects();
    let go = seq![driver.go_effect()];
    assert(arm =~= early + clear + flush + go);
    let before = prepared.run(layout, early);
    let cleared = before.run(layout, clear);
    clearing(before, layout, driver, field);
    let flushable = cleared.run(layout, flush);
    assert(flushable.field(block, Register::DmaIntRaw, field) == 0) by {
        reveal_with_fuel(Machine::run, 2);
    }
    crate::model::run_untouched(flushable, layout, go, block, Register::DmaIntRaw, field);
}

proof fn clearing(machine: Machine, layout: Layout, driver: DmaDriver, field: Field)
    requires
        transfer_interrupt(driver.info, field),
    ensures
        machine.run(layout, driver.clear_interrupts_effects()).field(
            driver.info.register_block,
            Register::DmaIntRaw,
            field,
        ) == 0,
{
    reveal_with_fuel(Machine::run, 2);
    reveal_with_fuel(crate::model::last_value, 10);
}

/// On the ESP32, when a transfer is under way, each data line is enabled exactly where there is
/// data for it, and the length registers hold the number of bits to move less one, or zero where
/// there are none.
#[verifier::rlimit(30)]
pub proof fn esp32_lines_and_lengths(
    machine: Machine,
    layout: Layout,
    driver: DmaDriver,
    plan: TransferPlan,
    results: Seq<Result<(), DmaError>>,
    field: Field,
)
    requires
        driver.info.chip == Chip::Esp32,
        driver.lengths_fit(plan),
        underway(plan.stage_after_all(results)),
    ensures
        ({
            let after = machine.run(layout, driver.effects_after_all(plan, results));
            let block = driver.info.register_block;
            let rx_len = plan.read_buffer.len;
            let tx_len = plan.write_buffer.len;
            &&& after.field(block, Register::User, Field::UsrMosi) == (if rx_len > 0 {
                1u32
            } else {
                0
            })
            &&& after.field(block, Register::User, Field::UsrMiso) == (if tx_len > 0 {
                1u32
            } else {
                0
            })
            &&& after.field(block, Register::SlvRdbufDlen, field) == (layout.decode)(
                Register::SlvRdbufDlen,
                field,
                (if rx_len > 0 {
                    8 * rx_len - 1
                } else {
                    0
                }) as u32,
            )
            &&& after.field(block, Register::SlvWrbufDlen, field) == (layout.decode)(
                Register::SlvWrbufDlen,
                field,
                (if tx_len > 0 {
                    8 * tx_len - 1
                } else {
                    0
                }) as u32,
            )
        }),
{
    underway_is_armed(machine, layout, driver, plan, results);
    let prepared = machine.run(layout, driver.setup_effects()).run(
        layout,
        driver.rx_effects(plan) + driver.tx_effects(plan),
    );
    let block = driver.info.register_block;
    let lengths = driver.info.length_effects(
        plan.read_buffer.len as int,
        plan.write_buffer.len as int,
    );
    let late = driver.clear_interrupts_effects() + driver.info.setup_for_flush_effects() + seq![
        driver.go_effect(),
    ];
    assert(driver.arm_effects(plan) =~= lengths + late);
    let told = prepared.run(layout, lengths);
    assert({
        &&& told.field(block, Register::User, Field::UsrMosi) == (if plan.receives() {
            1u32
        } else {
            0
        })
        &&& told.field(block, Register::User, Field::UsrMiso) == (if plan.sends() {
            1u32
        } else {
            0
        })
        &&& told.field(block, Register::SlvRdbufDlen, field) == (layout.decode)(
            Register::SlvRdbufDlen,
            field,
            crate::info::dlen(plan.read_buffer.len as int) as u32,
        )
        &&& told.field(block, Register::SlvWrbufDlen, field) == (layout.decode)(
            Register::SlvWrbufDlen,
            field,
            crate::info::dlen(plan.write_buffer.len as int) as u32,
        )
    }) by {
        reveal_with_fuel(Machine::run, 4);
        reveal_with_fuel(crate::model::last_value, 3);
    }
    crate::model::run_untouched(told, layout, late, block, Register::User, Field::UsrMosi);
    crate::model::run_untouched(told, layout, late, block, Register::User, Field::UsrMiso);
    crate::model::run_untouched(told, layout, late, block, Register::SlvRdbufDlen, field);
    crate::model::run_untouched(told, layout, late, block, Register::SlvWrbufDlen, field);
}

/// Where an empty buffer lies makes no difference: a write is a transfer that receives nothing,
/// and a read is one that sends nothing.
pub proof fn empty_buffers_do_not_matter(
    driver: DmaDriver,
    plan: TransferPlan,
    other: TransferPlan,
    results: Seq<Result<(), DmaError>>,
)
    requires
        other == (TransferPlan {
            read_buffer: other.read_buffer,
            write_buffer: other.write_buffer,
            ..plan
        }),
        plan.read_buffer == other.read_buffer || (plan.read_buffer.len == 0
            && other.read_buffer.len == 0),
        plan.write_buffer == other.write_buffer || (plan.write_buffer.len == 0
            && other.write_buffer.len == 0),
    ensures
        plan.stage_after_all(results) == other.stage_after_all(results),
        driver.effects_after_all(plan, results) == driver.effects_after_all(other, results),
    decreases results.len(),
{
    assert(driver.program(plan) =~= driver.program(other));
    if results.len() > 0 {
        empty_buffers_do_not_matter(driver, plan, other, results.drop_last());
    }
}

/// How far a wait has come after some looks at the hardware.
pub open spec fn wait_after(
    info: Info,
    is_rx: bool,
    is_tx: bool,
    looks: Seq<WaitStatus>,
) -> WaitState
    decreases looks.len(),
{
    if looks.len() == 0 {
        WaitState::Transferring
    } else {
        info.next_wait(
            is_rx,
            is_tx,
            wait_after(info, is_rx, is_tx, looks.drop_last()),
            looks.last(),
        )
    }
}

/// A wait is over exactly when the channel was seen to be done, as far as it is waited for, with
/// the bus idle, and the bus was seen to be idle once more after that.
pub proof fn wait_ends_with_the_transfer(
    info: Info,
    is_rx: bool,
    is_tx: bool,
    looks: Seq<WaitStatus>,
)
    ensures
        wait_after(info, is_rx, is_tx, looks) == WaitState::Transferring <==> forall|i: int|
            0 <= i < looks.len() ==> !info.transfer_over(is_rx, is_tx, #[trigger] looks[i]),
        wait_after(info, is_rx, is_tx, looks) == WaitState::Done <==> exists|i: int, j: int|
            0 <= i < j < looks.len() && info.transfer_over(is_rx, is_tx, #[trigger] looks[i])
                && !info.bus_busy((#[trigger] looks[j]).bus),
    decreases looks.len(),
{
    if looks.len() > 0 {
        let earlier = looks.drop_last();
        let n = earlier.len() as int;
        wait_ends_with_the_transfer(info, is_rx, is_tx, earlier);
        assert(forall|i: int| 0 <= i < n ==> #[trigger] looks[i] == earlier[i]);
        assert(looks.last() == looks[n]);
        let before = wait_after(info, is_rx, is_tx, earlier);
        let after = wait_after(info, is_rx, is_tx, looks);
        if before == WaitState::Done {
            let (i, j) = choose|i: int, j: int|
                0 <= i < j < n && info.transfer_over(is_rx, is_tx, #[trigger] earlier[i])
                    && !info.bus_busy((#[trigger] earlier[j]).bus);
            assert(info.transfer_over(is_rx, is_tx, looks[i]) && !info.bus_busy(looks[j].bus));
        } else if before == WaitState::Flushing {
            let i = choose|i: int|
                0 <= i < n && info.transfer_over(is_rx, is_tx, #[trigger] earlier[i]);
            assert(info.transfer_over(is_rx, is_tx, looks[i]));
            if after == WaitState::Done {
                assert(!info.bus_busy(looks[n].bus));
            }
        }
    }
}

} // verus!
