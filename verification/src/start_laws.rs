//! What the start of a transfer asks of the DMA engine and does to the controller, whatever the
//! engine answers.

use crate::dma::{DmaError, DmaRequest};
use crate::effect::Effect;
use crate::model::{Layout, Machine};
use crate::register::{Access, Field, FieldValue, Register, RegisterBlock};
use crate::slave::start::{DmaDriver, Stage, TransferPlan};
use vstd::prelude::*;

verus! {

broadcast use crate::model::run_add;

/// What is asked of the DMA engine among some effects, in order.
pub open spec fn requests(effects: Seq<Effect<Seq<FieldValue>>>) -> Seq<DmaRequest>
    decreases effects.len(),
{
    if effects.len() == 0 {
        seq![]
    } else {
        let earlier = requests(effects.drop_last());
        match effects.last() {
            Effect::Dma(request) => earlier.push(request),
            _ => earlier,
        }
    }
}

/// Two parts ask for what the first asks for, and then for what the second asks for.
proof fn requests_add(
    first: Seq<Effect<Seq<FieldValue>>>,
    second: Seq<Effect<Seq<FieldValue>>>,
)
    ensures
        requests(first + second) == requests(first) + requests(second),
    decreases second.len(),
{
    if second.len() == 0 {
        assert(first + second =~= first);
        assert(requests(first) + requests(second) =~= requests(first));
    } else {
        requests_add(first, second.drop_last());
        assert((first + second).drop_last() =~= first + second.drop_last());
        assert(requests(first + second) =~= requests(first) + requests(second));
    }
}

/// Effects that are no requests ask for nothing.
proof fn no_requests(effects: Seq<Effect<Seq<FieldValue>>>)
    requires
        forall|i: int| 0 <= i < effects.len() ==> !(#[trigger] effects[i] is Dma),
    ensures
        requests(effects) == Seq::<DmaRequest>::empty(),
    decreases effects.len(),
{
    if effects.len() > 0 {
        assert(effects.last() == effects[effects.len() - 1]);
        no_requests(effects.drop_last());
    }
}

/// A request among the effects is among what is asked, at a place of its own.
proof fn requests_are_among_effects(effects: Seq<Effect<Seq<FieldValue>>>, i: int) -> (place: int)
    requires
        0 <= i < effects.len(),
        effects[i] is Dma,
    ensures
        place == requests(effects.take(i)).len(),
        0 <= place < requests(effects).len(),
        requests(effects)[place] == effects[i]->Dma_0,
{
    let before = effects.take(i);
    let rest = effects.skip(i + 1);
    let one = seq![effects[i]];
    assert(effects =~= before + one + rest);
    requests_add(before + one, rest);
    requests_add(before, one);
    assert(one.drop_last() =~= Seq::<Effect<Seq<FieldValue>>>::empty());
    reveal_with_fuel(requests, 2);
    assert(requests(one) =~= seq![effects[i]->Dma_0]);
    requests(before).len() as int
}

/// As far as the engine succeeds, the start asks it for one thing after the other: the receiving
/// chain to be filled with the read buffer and the receiving half to be prepared, where there is
/// anything to receive; the sending chain to be filled with the write buffer and the sending half
/// to be prepared, where there is anything to send; and then the halves to be started, the
/// receiving half first. No chain is a ring, and each half is prepared for the driver's own DMA
/// peripheral with the chain of its direction. Each answer brings one request more, and the
/// transfer has started when all are answered.
pub proof fn requests_come_in_order(
    driver: DmaDriver,
    plan: TransferPlan,
    results: Seq<Result<(), DmaError>>,
)
    requires
        forall|i: int| 0 <= i < results.len() ==> #[trigger] results[i] is Ok,
    ensures
        ({
            let asked = requests(driver.effects_after_all(plan, results));
            let receiving = if plan.read_buffer.len > 0 {
                seq![
                    DmaRequest::FillForRx {
                        chain: plan.rx_chain,
                        circular: false,
                        buffer: plan.read_buffer,
                    },
                    DmaRequest::PrepareRx {
                        rx: plan.rx,
                        peripheral: driver.dma_peripheral,
                        chain: plan.rx_chain,
                    },
                ]
            } else {
                seq![]
            };
            let sending = if plan.write_buffer.len > 0 {
                seq![
                    DmaRequest::FillForTx {
                        chain: plan.tx_chain,
                        circular: false,
                        buffer: plan.write_buffer,
                    },
                    DmaRequest::PrepareTx {
                        tx: plan.tx,
                        peripheral: driver.dma_peripheral,
                        chain: plan.tx_chain,
                    },
                ]
            } else {
                seq![]
            };
            let starting_rx = if plan.read_buffer.len > 0 {
                seq![DmaRequest::StartRx { rx: plan.rx }]
            } else {
                seq![]
            };
            let starting_tx = if plan.write_buffer.len > 0 {
                seq![DmaRequest::StartTx { tx: plan.tx }]
            } else {
                seq![]
            };
            let all = receiving + sending + starting_rx + starting_tx;
            &&& results.len() < all.len() ==> asked == all.take(
                results.len() as int + 1,
            )
            &&& results.len() >= all.len() ==> asked == all
            &&& plan.stage_after_all(results) is Started <==> results.len() >= all.len()
        }),
{
    let all = all_requests(driver, plan);
    crate::transfer_laws::start_follows_the_program(driver, plan, results);
    crate::transfer_laws::successes_start_the_transfer(plan, results);
    requests_of_the_program(driver, plan);
    if results.len() < all.len() {
        requests_up_to(driver, plan, results.len() as int);
    }
}

/// The first fault that the engine reports ends the start with that fault: nothing is done after
/// the request that failed, and what the engine says later makes no difference.
pub proof fn faults_stop_the_start(
    driver: DmaDriver,
    plan: TransferPlan,
    results: Seq<Result<(), DmaError>>,
    first: int,
)
    requires
        0 <= first < results.len(),
        first < (if plan.read_buffer.len > 0 {
            3int
        } else {
            0
        }) + (if plan.write_buffer.len > 0 {
            3int
        } else {
            0
        }),
        results[first] is Err,
        forall|i: int| 0 <= i < first ==> #[trigger] results[i] is Ok,
    ensures
        plan.stage_after_all(results) == Stage::Failed(results[first]->Err_0),
        driver.effects_after_all(plan, results) == driver.effects_after_all(
            plan,
            results.take(first),
        ),
        ({
            let done = driver.effects_after_all(plan, results);
            &&& requests(done).len() == first + 1
            &&& done.last() is Dma
        }),
{
    let earlier = results.take(first);
    assert(earlier.len() < plan.stages().len());
    crate::transfer_laws::first_fault_ends_the_start(driver, plan, results, first);
    crate::transfer_laws::successes_start_the_transfer(plan, earlier);
    crate::transfer_laws::start_follows_the_program(driver, plan, earlier);
    crate::transfer_laws::stages_in_order(plan);
    requests_come_in_order(driver, plan, earlier);
}

/// Whatever a start asks of the DMA engine is in the terms of its plan. Chains are filled where
/// there is data for them, each with the buffer of its direction and as no ring; each half of the
/// channel is prepared with the chain of its direction and for the driver's own DMA peripheral.
/// The rest of what a start does is to access registers.
pub proof fn requests_keep_to_the_plan(
    driver: DmaDriver,
    plan: TransferPlan,
    results: Seq<Result<(), DmaError>>,
    i: int,
)
    requires
        0 <= i < driver.effects_after_all(plan, results).len(),
    ensures
        match driver.effects_after_all(plan, results)[i] {
            Effect::Dma(DmaRequest::FillForRx { chain, circular, buffer }) => {
                &&& plan.read_buffer.len > 0
                &&& buffer.addr == plan.read_buffer.addr
                &&& buffer.len == plan.read_buffer.len
                &&& chain == plan.rx_chain
                &&& !circular
            },
            Effect::Dma(DmaRequest::FillForTx { chain, circular, buffer }) => {
                &&& plan.write_buffer.len > 0
                &&& buffer.addr == plan.write_buffer.addr
                &&& buffer.len == plan.write_buffer.len
                &&& chain == plan.tx_chain
                &&& !circular
            },
            Effect::Dma(DmaRequest::PrepareRx { rx, peripheral, chain }) => {
                &&& plan.read_buffer.len > 0
                &&& rx == plan.rx
                &&& peripheral == driver.dma_peripheral
                &&& chain == plan.rx_chain
            },
            Effect::Dma(DmaRequest::PrepareTx { tx, peripheral, chain }) => {
                &&& plan.write_buffer.len > 0
                &&& tx == plan.tx
                &&& peripheral == driver.dma_peripheral
                &&& chain == plan.tx_chain
            },
            Effect::Dma(DmaRequest::StartRx { rx }) => plan.read_buffer.len > 0 && rx == plan.rx,
            Effect::Dma(DmaRequest::StartTx { tx }) => plan.write_buffer.len > 0 && tx == plan.tx,
            Effect::Register(block, _) => block == driver.info.register_block,
            _ => false,
        },
{
    crate::transfer_laws::start_follows_the_program(driver, plan, results);
    let done = driver.effects_after_all(plan, results);
    let program = driver.program(plan);
    assert(done[i] == program[i]);
    crate::transfer_laws::program_stays_in_its_block(driver, plan);
    if done[i] is Dma {
        requests_of_the_program(driver, plan);
        let place = requests_are_among_effects(program, i);
        assert(all_requests(driver, plan)[place] == driver.request(plan, plan.stages()[place]));
        crate::transfer_laws::stages_in_order(plan);
    }
}

/// A start asks for no kind of thing twice.
pub proof fn requests_are_not_repeated(
    driver: DmaDriver,
    plan: TransferPlan,
    results: Seq<Result<(), DmaError>>,
    i: int,
    j: int,
)
    requires
        0 <= i < driver.effects_after_all(plan, results).len(),
        0 <= j < driver.effects_after_all(plan, results).len(),
    ensures
        match (
            driver.effects_after_all(plan, results)[i],
            driver.effects_after_all(plan, results)[j],
        ) {
            (Effect::Dma(one), Effect::Dma(other)) => {
                &&& one is FillForRx && other is FillForRx ==> i == j
                &&& one is FillForTx && other is FillForTx ==> i == j
                &&& one is PrepareRx && other is PrepareRx ==> i == j
                &&& one is PrepareTx && other is PrepareTx ==> i == j
                &&& one is StartRx && other is StartRx ==> i == j
                &&& one is StartTx && other is StartTx ==> i == j
            },
            _ => true,
        },
{
    crate::transfer_laws::start_follows_the_program(driver, plan, results);
    let done = driver.effects_after_all(plan, results);
    let program = driver.program(plan);
    assert(done[i] == program[i] && done[j] == program[j]);
    if done[i] is Dma && done[j] is Dma {
        requests_of_the_program(driver, plan);
        let first = requests_are_among_effects(program, i);
        let second = requests_are_among_effects(program, j);
        kinds_differ(driver, plan, first, second);
        if i < j {
            places_in_order(program, i, j);
        } else if j < i {
            places_in_order(program, j, i);
        }
    }
}

proof fn kinds_differ(driver: DmaDriver, plan: TransferPlan, first: int, second: int)
    requires
        0 <= first < plan.stages().len(),
        0 <= second < plan.stages().len(),
    ensures
        ({
            let one = all_requests(driver, plan)[first];
            let other = all_requests(driver, plan)[second];
            &&& one is FillForRx && other is FillForRx ==> first == second
            &&& one is FillForTx && other is FillForTx ==> first == second
            &&& one is PrepareRx && other is PrepareRx ==> first == second
            &&& one is PrepareTx && other is PrepareTx ==> first == second
            &&& one is StartRx && other is StartRx ==> first == second
            &&& one is StartTx && other is StartTx ==> first == second
        }),
{
}

/// Of two requests, the earlier one is asked for first.
proof fn places_in_order(effects: Seq<Effect<Seq<FieldValue>>>, i: int, j: int)
    requires
        0 <= i < j < effects.len(),
        effects[i] is Dma,
    ensures
        requests(effects.take(i)).len() < requests(effects.take(j)).len(),
{
    assert(effects.take(j).take(i) =~= effects.take(i));
    requests_are_among_effects(effects.take(j), i);
}

/// A transfer that has started and receives has had its chain filled for the read buffer, its half
/// prepared for the driver's own DMA peripheral, and its half started, once each and in this order.
#[verifier::rlimit(30)]
pub proof fn receiving_is_asked_for_once(
    driver: DmaDriver,
    plan: TransferPlan,
    results: Seq<Result<(), DmaError>>,
)
    requires
        plan.read_buffer.len > 0,
        plan.stage_after_all(results) is Started,
    ensures
        ({
            let done = driver.effects_after_all(plan, results);
            exists|fill: int, prepare: int, start: int|
                #![trigger done[fill], done[prepare], done[start]]
                {
                    &&& 0 <= fill < prepare < start < done.len()
                    &&& done[fill] == Effect::Dma::<Seq<FieldValue>>(
                        DmaRequest::FillForRx {
                            chain: plan.rx_chain,
                            circular: false,
                            buffer: plan.read_buffer,
                        },
                    )
                    &&& done[prepare] == Effect::Dma::<Seq<FieldValue>>(
                        DmaRequest::PrepareRx {
                            rx: plan.rx,
                            peripheral: driver.dma_peripheral,
                            chain: plan.rx_chain,
                        },
                    )
                    &&& done[start] == Effect::Dma::<Seq<FieldValue>>(
                        DmaRequest::StartRx { rx: plan.rx },
                    )
                    &&& forall|k: int|
                        0 <= k < done.len() && #[trigger] done[k] is Dma ==> {
                            &&& done[k]->Dma_0 is FillForRx ==> k == fill
                            &&& done[k]->Dma_0 is PrepareRx ==> k == prepare
                            &&& done[k]->Dma_0 is StartRx ==> k == start
                        }
                }
        }),
{
    crate::transfer_laws::start_follows_the_program(driver, plan, results);
    let done = driver.effects_after_all(plan, results);
    crate::transfer_laws::positions(driver, plan, Stage::FillRx);
    crate::transfer_laws::positions(driver, plan, Stage::PrepareRx);
    crate::transfer_laws::positions(driver, plan, Stage::StartRx);
    let fill = driver.position(plan, Stage::FillRx) - 1;
    let prepare = driver.position(plan, Stage::PrepareRx) - 1;
    let start = driver.position(plan, Stage::StartRx) - 1;
    assert(0 <= fill < prepare < start < done.len());
    assert forall|k: int| 0 <= k < done.len() && #[trigger] done[k] is Dma implies {
        &&& done[k]->Dma_0 is FillForRx ==> k == fill
        &&& done[k]->Dma_0 is PrepareRx ==> k == prepare
        &&& done[k]->Dma_0 is StartRx ==> k == start
    } by {
        requests_are_not_repeated(driver, plan, results, k, fill);
        requests_are_not_repeated(driver, plan, results, k, prepare);
        requests_are_not_repeated(driver, plan, results, k, start);
    }
    assert(done[fill] is Dma && done[prepare] is Dma && done[start] is Dma);
}

/// A transfer that has started and sends has had its chain filled for the write buffer, its half
/// prepared for the driver's own DMA peripheral, and its half started, once each and in this order.
#[verifier::rlimit(30)]
pub proof fn sending_is_asked_for_once(
    driver: DmaDriver,
    plan: TransferPlan,
    results: Seq<Result<(), DmaError>>,
)
    requires
        plan.write_buffer.len > 0,
        plan.stage_after_all(results) is Started,
    ensures
        ({
            let done = driver.effects_after_all(plan, results);
            exists|fill: int, prepare: int, start: int|
                #![trigger done[fill], done[prepare], done[start]]
                {
                    &&& 0 <= fill < prepare < start < done.len()
                    &&& done[fill] == Effect::Dma::<Seq<FieldValue>>(
                        DmaRequest::FillForTx {
                            chain: plan.tx_chain,
                            circular: false,
                            buffer: plan.write_buffer,
                        },
                    )
                    &&& done[prepare] == Effect::Dma::<Seq<FieldValue>>(
                        DmaRequest::PrepareTx {
                            tx: plan.tx,
                            peripheral: driver.dma_peripheral,
                            chain: plan.tx_chain,
                        },
                    )
                    &&& done[start] == Effect::Dma::<Seq<FieldValue>>(
                        DmaRequest::StartTx { tx: plan.tx },
                    )
                    &&& forall|k: int|
                        0 <= k < done.len() && #[trigger] done[k] is Dma ==> {
                            &&& done[k]->Dma_0 is FillForTx ==> k == fill
                            &&& done[k]->Dma_0 is PrepareTx ==> k == prepare
                            &&& done[k]->Dma_0 is StartTx ==> k == start
                        }
                }
        }),
{
    crate::transfer_laws::start_follows_the_program(driver, plan, results);
    let done = driver.effects_after_all(plan, results);
    crate::transfer_laws::positions(driver, plan, Stage::FillTx);
    crate::transfer_laws::positions(driver, plan, Stage::PrepareTx);
    crate::transfer_laws::positions(driver, plan, Stage::StartTx);
    let fill = driver.position(plan, Stage::FillTx) - 1;
    let prepare = driver.position(plan, Stage::PrepareTx) - 1;
    let start = driver.position(plan, Stage::StartTx) - 1;
    assert(0 <= fill < prepare < start < done.len());
    assert forall|k: int| 0 <= k < done.len() && #[trigger] done[k] is Dma implies {
        &&& done[k]->Dma_0 is FillForTx ==> k == fill
        &&& done[k]->Dma_0 is PrepareTx ==> k == prepare
        &&& done[k]->Dma_0 is StartTx ==> k == start
    } by {
        requests_are_not_repeated(driver, plan, results, k, fill);
        requests_are_not_repeated(driver, plan, results, k, prepare);
        requests_are_not_repeated(driver, plan, results, k, start);
    }
    assert(done[fill] is Dma && done[prepare] is Dma && done[start] is Dma);
}

/// While a start waits for an answer, the last thing it has done is the request that the stage
/// stands for.
pub proof fn stages_stand_for_requests(
    driver: DmaDriver,
    plan: TransferPlan,
    results: Seq<Result<(), DmaError>>,
)
    ensures
        ({
            let done = driver.effects_after_all(plan, results);
            let asked = Effect::Dma::<Seq<FieldValue>>(
                match plan.stage_after_all(results) {
                    Stage::FillRx => DmaRequest::FillForRx {
                        chain: plan.rx_chain,
                        circular: false,
                        buffer: plan.read_buffer,
                    },
                    Stage::PrepareRx => DmaRequest::PrepareRx {
                        rx: plan.rx,
                        peripheral: driver.dma_peripheral,
                        chain: plan.rx_chain,
                    },
                    Stage::FillTx => DmaRequest::FillForTx {
                        chain: plan.tx_chain,
                        circular: false,
                        buffer: plan.write_buffer,
                    },
                    Stage::PrepareTx => DmaRequest::PrepareTx {
                        tx: plan.tx,
                        peripheral: driver.dma_peripheral,
                        chain: plan.tx_chain,
                    },
                    Stage::StartRx => DmaRequest::StartRx { rx: plan.rx },
                    _ => DmaRequest::StartTx { tx: plan.tx },
                },
            );
            match plan.stage_after_all(results) {
                Stage::FillRx | Stage::PrepareRx | Stage::StartRx => {
                    plan.read_buffer.len > 0 && done.len() > 0 && done.last() == asked
                },
                Stage::FillTx | Stage::PrepareTx | Stage::StartTx => {
                    plan.write_buffer.len > 0 && done.len() > 0 && done.last() == asked
                },
                _ => true,
            }
        }),
{
    crate::transfer_laws::start_follows_the_program(driver, plan, results);
}

/// A transfer that is under way has let the controller go: once, by setting the one bit for it,
/// after every other register access and before either half of the channel is started.
#[verifier::rlimit(30)]
pub proof fn controller_is_let_go_last(
    driver: DmaDriver,
    plan: TransferPlan,
    results: Seq<Result<(), DmaError>>,
)
    requires
        ({
            let stage = plan.stage_after_all(results);
            stage is StartRx || stage is StartTx || stage is Started
        }),
    ensures
        ({
            let done = driver.effects_after_all(plan, results);
            exists|go: int|
                #![trigger done[go]]
                {
                    &&& 0 <= go < done.len()
                    &&& done[go] == Effect::Register(
                        driver.info.register_block,
                        Access::Modify {
                            register: Register::Cmd,
                            fields: seq![FieldValue { field: Field::Usr, bits: 1 }],
                        },
                    )
                    &&& forall|i: int|
                        0 <= i < go ==> match #[trigger] done[i] {
                            Effect::Register(_, access) => !(access.register() is Cmd),
                            Effect::Dma(request) => !(request is StartRx) && !(request is StartTx),
                            _ => false,
                        }
                    &&& forall|i: int|
                        go < i < done.len() ==> match #[trigger] done[i] {
                            Effect::Dma(request) => request is StartRx || request is StartTx,
                            _ => false,
                        }
                }
        }),
{
    let done = driver.effects_after_all(plan, results);
    let program = driver.program(plan);
    crate::transfer_laws::start_follows_the_program(driver, plan, results);
    let setup = driver.setup_effects();
    let rx = driver.rx_effects(plan);
    let tx = driver.tx_effects(plan);
    let arm = driver.arm_effects(plan);
    let start = driver.start_effects(plan);
    let go = setup.len() + rx.len() + tx.len() + arm.len() - 1;
    setup_only_resets(driver);
    arming_ends_with_letting_go(driver, plan);
    assert(program == setup + rx + tx + arm + start);
    assert(go < done.len());
    assert(done[go] == arm.last());
    assert forall|i: int| 0 <= i < go implies match #[trigger] done[i] {
        Effect::Register(_, access) => !(access.register() is Cmd),
        Effect::Dma(request) => !(request is StartRx) && !(request is StartTx),
        _ => false,
    } by {
        assert(done[i] == program[i]);
        if i < setup.len() {
            assert(done[i] == setup[i]);
        } else if i < setup.len() + rx.len() {
            assert(done[i] == rx[i - setup.len()]);
        } else if i < setup.len() + rx.len() + tx.len() {
            assert(done[i] == tx[i - setup.len() - rx.len()]);
        } else {
            assert(done[i] == arm[i - setup.len() - rx.len() - tx.len()]);
        }
    }
    assert forall|i: int| go < i < done.len() implies match #[trigger] done[i] {
        Effect::Dma(request) => request is StartRx || request is StartTx,
        _ => false,
    } by {
        assert(done[i] == start[i - go - 1]);
    }
}

/// Before the engine has prepared everything, the controller is not let go, no half of the channel
/// is started, and only the DMA configuration and the slave register are accessed.
pub proof fn unprepared_starts_only_reset(
    driver: DmaDriver,
    plan: TransferPlan,
    results: Seq<Result<(), DmaError>>,
    i: int,
)
    requires
        0 <= i < driver.effects_after_all(plan, results).len(),
        ({
            let stage = plan.stage_after_all(results);
            stage is FillRx || stage is PrepareRx || stage is FillTx || stage is PrepareTx
        }),
    ensures
        match driver.effects_after_all(plan, results)[i] {
            Effect::Register(_, access) => access.register() is DmaConf || access.register()
                is Slave,
            Effect::Dma(request) => !(request is StartRx) && !(request is StartTx),
            _ => false,
        },
{
    let done = driver.effects_after_all(plan, results);
    crate::transfer_laws::start_follows_the_program(driver, plan, results);
    let setup = driver.setup_effects();
    let rx = driver.rx_effects(plan);
    let tx = driver.tx_effects(plan);
    setup_only_resets(driver);
    assert(done.len() <= setup.len() + rx.len() + tx.len());
    assert(done[i] == driver.program(plan)[i]);
    if i < setup.len() {
        assert(done[i] == setup[i]);
    } else if i < setup.len() + rx.len() {
        assert(done[i] == rx[i - setup.len()]);
    } else {
        assert(done[i] == tx[i - setup.len() - rx.len()]);
    }
}

proof fn setup_only_resets(driver: DmaDriver)
    ensures
        forall|i: int|
            0 <= i < driver.setup_effects().len() ==> match #[trigger] driver.setup_effects()[i] {
                Effect::Register(_, access) => access.register() is DmaConf || access.register()
                    is Slave,
                _ => false,
            },
{
}

proof fn arming_ends_with_letting_go(driver: DmaDriver, plan: TransferPlan)
    ensures
        ({
            let arm = driver.arm_effects(plan);
            &&& arm.len() > 0
            &&& arm.last() == Effect::Register(
                driver.info.register_block,
                Access::Modify {
                    register: Register::Cmd,
                    fields: seq![FieldValue { field: Field::Usr, bits: 1 }],
                },
            )
            &&& forall|i: int|
                0 <= i < arm.len() - 1 ==> match #[trigger] arm[i] {
                    Effect::Register(_, access) => !(access.register() is Cmd),
                    _ => false,
                }
        }),
{
}

/// When a transfer is under way, the controller has been told to go, the flag that says that a
/// transaction is done is down, and where the DMA engine is shared the FIFOs have been emptied.
#[verifier::rlimit(30)]
pub proof fn controller_is_ready_to_go(
    machine: Machine,
    layout: Layout,
    driver: DmaDriver,
    plan: TransferPlan,
    results: Seq<Result<(), DmaError>>,
)
    requires
        ({
            let stage = plan.stage_after_all(results);
            stage is StartRx || stage is StartTx || stage is Started
        }),
    ensures
        ({
            let after = machine.run(layout, driver.effects_after_all(plan, results));
            let block = driver.info.register_block;
            &&& after.field(block, Register::Cmd, Field::Usr) == 1
            &&& if driver.info.chip is Esp32 || driver.info.chip is Esp32s2 {
                after.field(block, Register::Slave, Field::TransDone) == 0
            } else {
                &&& after.field(block, Register::DmaIntRaw, Field::TransDone) == 0
                &&& after.field(block, Register::DmaConf, Field::RxAfifoRst) == 1
                &&& after.field(block, Register::DmaConf, Field::BufAfifoRst) == 1
                &&& after.field(block, Register::DmaConf, Field::DmaAfifoRst) == 1
            }
        }),
{
    crate::transfer_laws::underway_is_armed(machine, layout, driver, plan, results);
    crate::transfer_laws::started_transfer_is_waited_for(machine, layout, driver, plan, results);
    let prepared = machine.run(layout, driver.setup_effects()).run(
        layout,
        driver.rx_effects(plan) + driver.tx_effects(plan),
    );
    let block = driver.info.register_block;
    let arm = driver.arm_effects(plan);
    let last = seq![driver.go_effect()];
    assert(arm =~= arm.drop_last() + last);
    let before = prepared.run(layout, arm.drop_last());
    assert(before.run(layout, last).field(block, Register::Cmd, Field::Usr) == 1) by {
        reveal_with_fuel(Machine::run, 2);
        reveal_with_fuel(crate::model::last_value, 2);
    }
    if driver.info.chip.has_gdma() {
        let early = driver.reset_dma_effects();
        let late = arm.skip(1);
        assert(arm =~= early + late);
        let emptied = prepared.run(layout, early);
        assert({
            &&& emptied.field(block, Register::DmaConf, Field::RxAfifoRst) == 1
            &&& emptied.field(block, Register::DmaConf, Field::BufAfifoRst) == 1
            &&& emptied.field(block, Register::DmaConf, Field::DmaAfifoRst) == 1
        }) by {
            reveal_with_fuel(Machine::run, 2);
            reveal_with_fuel(crate::model::last_value, 4);
        }
        rest_keeps_the_fifos(emptied, layout, driver, plan, Field::RxAfifoRst);
        rest_keeps_the_fifos(emptied, layout, driver, plan, Field::BufAfifoRst);
        rest_keeps_the_fifos(emptied, layout, driver, plan, Field::DmaAfifoRst);
    }
}

proof fn rest_keeps_the_fifos(
    machine: Machine,
    layout: Layout,
    driver: DmaDriver,
    plan: TransferPlan,
    field: Field,
)
    requires
        driver.info.chip.has_gdma(),
        field is RxAfifoRst || field is BufAfifoRst || field is DmaAfifoRst,
    ensures
        machine.run(layout, driver.arm_effects(plan).skip(1)).field(
            driver.info.register_block,
            Register::DmaConf,
            field,
        ) == machine.field(driver.info.register_block, Register::DmaConf, field),
{
    reveal_with_fuel(crate::model::last_value, 2);
    crate::model::run_untouched(
        machine,
        layout,
        driver.arm_effects(plan).skip(1),
        driver.info.register_block,
        Register::DmaConf,
        field,
    );
}

/// Whatever the engine answers, a start has got the controller ready before it asked for anything:
/// the slave logic has been through a reset, and so has the DMA engine where it is the controller's
/// own. It leaves both out of reset, and a shared DMA engine switched on both ways.
#[verifier::rlimit(30)]
pub proof fn starts_get_ready_first(
    machine: Machine,
    layout: Layout,
    driver: DmaDriver,
    plan: TransferPlan,
    results: Seq<Result<(), DmaError>>,
)
    ensures
        ({
            let done = driver.effects_after_all(plan, results);
            let after = machine.run(layout, done);
            let block = driver.info.register_block;
            let reset = if driver.info.chip is Esp32 {
                Field::SyncReset
            } else {
                Field::SoftReset
            };
            &&& exists|k: int|
                #![trigger done.take(k)]
                {
                    &&& 0 <= k <= done.len()
                    &&& requests(done.take(k)).len() == 0
                    &&& machine.run(layout, done.take(k)).field(block, Register::Slave, reset) == 1
                }
            &&& after.field(block, Register::Slave, reset) == 0
            &&& if driver.info.chip is Esp32 || driver.info.chip is Esp32s2 {
                &&& exists|k: int|
                    #![trigger done.take(k)]
                    {
                        let then = machine.run(layout, done.take(k));
                        &&& 0 <= k <= done.len()
                        &&& requests(done.take(k)).len() == 0
                        &&& then.field(block, Register::DmaConf, Field::InRst) == 1
                        &&& then.field(block, Register::DmaConf, Field::OutRst) == 1
                        &&& then.field(block, Register::DmaConf, Field::AhbmFifoRst) == 1
                        &&& then.field(block, Register::DmaConf, Field::AhbmRst) == 1
                        &&& driver.info.chip is Esp32s2 ==> then.field(
                            block,
                            Register::DmaConf,
                            Field::DmaInfifoFullClr,
                        ) == 1
                    }
                &&& after.field(block, Register::DmaConf, Field::InRst) == 0
                &&& after.field(block, Register::DmaConf, Field::OutRst) == 0
                &&& after.field(block, Register::DmaConf, Field::AhbmFifoRst) == 0
                &&& after.field(block, Register::DmaConf, Field::AhbmRst) == 0
                &&& driver.info.chip is Esp32s2 ==> after.field(
                    block,
                    Register::DmaConf,
                    Field::DmaInfifoFullClr,
                ) == 0
            } else {
                &&& after.field(block, Register::DmaConf, Field::DmaTxEna) == 1
                &&& after.field(block, Register::DmaConf, Field::DmaRxEna) == 1
                &&& after.field(block, Register::DmaConf, Field::RxEofEn) == 0
            }
        }),
{
    let done = driver.effects_after_all(plan, results);
    let setup = driver.setup_effects();
    let enable = driver.enable_dma_effects();
    let reset = driver.info.reset_effects();
    let block = driver.info.register_block;
    let rest = done.skip(setup.len() as int);
    setup_comes_first(driver, plan, results);
    assert(done =~= setup + rest);
    let enabled = machine.run(layout, enable);
    let ready = machine.run(layout, setup);
    let after = machine.run(layout, done);
    assert(ready == enabled.run(layout, reset));
    crate::laws::reset_is_a_pulse(enabled, layout, driver.info);
    crate::transfer_laws::enabling(machine, layout, driver);
    assert forall|r: Register, f: Field| readied(driver, r, f) implies #[trigger] after.field(
        block,
        r,
        f,
    ) == ready.field(block, r, f) by {
        rest_keeps_what_is_ready(driver, plan, results, r, f);
        crate::model::run_untouched(ready, layout, rest, block, r, f);
    }
    let k = enable.len() as int + 1;
    assert(done.take(k) =~= enable + reset.take(1));
    no_requests(done.take(k));
    if driver.info.chip.has_pdma() {
        let raise = driver.rst_effects(true);
        let n = raise.len() as int;
        assert(done.take(n) =~= raise);
        no_requests(done.take(n));
        raising(machine, layout, driver);
    }
}

/// The fields that getting ready decides.
spec fn readied(driver: DmaDriver, register: Register, field: Field) -> bool {
    match register {
        Register::Slave => field == driver.info.reset_field(),
        Register::DmaConf => crate::transfer_laws::enable_field(driver.info, field),
        _ => false,
    }
}

/// Raising the reset bits raises them all.
pub proof fn raising(machine: Machine, layout: Layout, driver: DmaDriver)
    ensures
        ({
            let then = machine.run(layout, driver.rst_effects(true));
            let block = driver.info.register_block;
            &&& then.field(block, Register::DmaConf, Field::InRst) == 1
            &&& then.field(block, Register::DmaConf, Field::OutRst) == 1
            &&& then.field(block, Register::DmaConf, Field::AhbmFifoRst) == 1
            &&& then.field(block, Register::DmaConf, Field::AhbmRst) == 1
            &&& driver.info.chip is Esp32s2 ==> then.field(
                block,
                Register::DmaConf,
                Field::DmaInfifoFullClr,
            ) == 1
        }),
{
    reveal_with_fuel(Machine::run, 3);
    reveal_with_fuel(crate::model::last_value, 5);
}

proof fn setup_comes_first(
    driver: DmaDriver,
    plan: TransferPlan,
    results: Seq<Result<(), DmaError>>,
)
    ensures
        driver.setup_effects().is_prefix_of(driver.effects_after_all(plan, results)),
    decreases results.len(),
{
    let done = driver.effects_after_all(plan, results);
    if results.len() == 0 {
        assert(done.take(driver.setup_effects().len() as int) =~= driver.setup_effects());
    } else {
        setup_comes_first(driver, plan, results.drop_last());
    }
}

proof fn rest_keeps_what_is_ready(
    driver: DmaDriver,
    plan: TransferPlan,
    results: Seq<Result<(), DmaError>>,
    register: Register,
    field: Field,
)
    requires
        readied(driver, register, field),
    ensures
        ({
            let rest = driver.effects_after_all(plan, results).skip(
                driver.setup_effects().len() as int,
            );
            forall|i: int|
                0 <= i < rest.len() ==> !crate::model::touches(
                    #[trigger] rest[i],
                    driver.info.register_block,
                    register,
                    field,
                )
        }),
{
    let done = driver.effects_after_all(plan, results);
    let program = driver.program(plan);
    let n = driver.setup_effects().len() as int;
    let rest = done.skip(n);
    let arm = driver.arm_effects(plan);
    let before_arm = n + driver.rx_effects(plan).len() + driver.tx_effects(plan).len();
    crate::transfer_laws::start_follows_the_program(driver, plan, results);
    setup_comes_first(driver, plan, results);
    arm_keeps_what_is_ready(driver, plan, register, field);
    let requests = driver.rx_effects(plan) + driver.tx_effects(plan);
    let start = driver.start_effects(plan);
    assert forall|i: int| 0 <= i < rest.len() implies !crate::model::touches(
        #[trigger] rest[i],
        driver.info.register_block,
        register,
        field,
    ) by {
        assert(rest[i] == program[n + i]);
        if before_arm <= n + i < before_arm + arm.len() {
            assert(rest[i] == arm[n + i - before_arm]);
        } else if n + i < before_arm {
            assert(rest[i] == requests[i]);
        } else {
            assert(rest[i] == start[n + i - before_arm - arm.len()]);
        }
    }
}

proof fn arm_keeps_what_is_ready(
    driver: DmaDriver,
    plan: TransferPlan,
    register: Register,
    field: Field,
)
    requires
        readied(driver, register, field),
    ensures
        forall|i: int|
            0 <= i < driver.arm_effects(plan).len() ==> !crate::model::touches(
                #[trigger] driver.arm_effects(plan)[i],
                driver.info.register_block,
                register,
                field,
            ),
{
    reveal_with_fuel(crate::model::last_value, 4);
}

/// A start takes no other interrupts away than those that a transfer can raise.
pub proof fn other_interrupts_stay(
    machine: Machine,
    layout: Layout,
    driver: DmaDriver,
    plan: TransferPlan,
    results: Seq<Result<(), DmaError>>,
    field: Field,
)
    requires
        !crate::transfer_laws::transfer_interrupt(driver.info, field),
        (layout.reset)(Register::DmaIntClr, field) != 1,
    ensures
        machine.run(layout, driver.effects_after_all(plan, results)).field(
            driver.info.register_block,
            Register::DmaIntRaw,
            field,
        ) == machine.field(driver.info.register_block, Register::DmaIntRaw, field),
{
    let done = driver.effects_after_all(plan, results);
    let program = driver.program(plan);
    let setup = driver.setup_effects();
    let requests = driver.rx_effects(plan) + driver.tx_effects(plan);
    let arm = driver.arm_effects(plan);
    let start = driver.start_effects(plan);
    crate::transfer_laws::start_follows_the_program(driver, plan, results);
    setup_only_resets(driver);
    arm_clears_only(driver, plan, field);
    assert forall|i: int| 0 <= i < done.len() implies spares(#[trigger] done[i], field) by {
        assert(done[i] == program[i]);
        if i < setup.len() {
            assert(done[i] == setup[i]);
        } else if i < setup.len() + requests.len() {
            assert(done[i] == requests[i - setup.len()]);
        } else if i < setup.len() + requests.len() + arm.len() {
            assert(done[i] == arm[i - setup.len() - requests.len()]);
        } else {
            assert(done[i] == start[i - setup.len() - requests.len() - arm.len()]);
        }
    }
    run_spares(machine, layout, done, driver.info.register_block, field);
}

/// Whether an effect neither writes the raw interrupts nor names an interrupt to clear.
spec fn spares(effect: Effect<Seq<FieldValue>>, field: Field) -> bool {
    match effect {
        Effect::Register(_, access) => {
            &&& !(access.register() is DmaIntRaw)
            &&& access.register() is DmaIntClr ==> access is Write && crate::model::last_value(
                access->Write_fields,
                field,
            ) is None
        },
        _ => true,
    }
}

proof fn run_spares(
    machine: Machine,
    layout: Layout,
    effects: Seq<Effect<Seq<FieldValue>>>,
    block: RegisterBlock,
    field: Field,
)
    requires
        (layout.reset)(Register::DmaIntClr, field) != 1,
        forall|i: int| 0 <= i < effects.len() ==> spares(#[trigger] effects[i], field),
    ensures
        machine.run(layout, effects).field(block, Register::DmaIntRaw, field) == machine.field(
            block,
            Register::DmaIntRaw,
            field,
        ),
    decreases effects.len(),
{
    if effects.len() > 0 {
        assert(spares(effects[effects.len() - 1], field));
        run_spares(machine, layout, effects.drop_last(), block, field);
    }
}

proof fn arm_clears_only(driver: DmaDriver, plan: TransferPlan, field: Field)
    requires
        !crate::transfer_laws::transfer_interrupt(driver.info, field),
    ensures
        forall|i: int|
            0 <= i < driver.arm_effects(plan).len() ==> spares(
                #[trigger] driver.arm_effects(plan)[i],
                field,
            ),
{
    reveal_with_fuel(crate::model::last_value, 10);
}

/// The requests of a start that succeeds.
spec fn all_requests(driver: DmaDriver, plan: TransferPlan) -> Seq<DmaRequest> {
    plan.stages().map_values(|stage: Stage| driver.request(plan, stage))
}

proof fn requests_of_the_parts(driver: DmaDriver, plan: TransferPlan)
    ensures
        requests(driver.setup_effects()) == Seq::<DmaRequest>::empty(),
        requests(driver.arm_effects(plan)) == Seq::<DmaRequest>::empty(),
        requests(driver.rx_effects(plan)) =~= (if plan.receives() {
            seq![driver.request(plan, Stage::FillRx), driver.request(plan, Stage::PrepareRx)]
        } else {
            seq![]
        }),
        requests(driver.tx_effects(plan)) =~= (if plan.sends() {
            seq![driver.request(plan, Stage::FillTx), driver.request(plan, Stage::PrepareTx)]
        } else {
            seq![]
        }),
        requests(driver.start_effects(plan)) =~= (if plan.receives() {
            seq![driver.request(plan, Stage::StartRx)]
        } else {
            seq![]
        }) + (if plan.sends() {
            seq![driver.request(plan, Stage::StartTx)]
        } else {
            seq![]
        }),
{
    no_requests(driver.setup_effects());
    no_requests(driver.arm_effects(plan));
    reveal_with_fuel(requests, 3);
}

proof fn requests_of_the_program(driver: DmaDriver, plan: TransferPlan)
    ensures
        requests(driver.program(plan)) == all_requests(driver, plan),
{
    requests_of_the_parts(driver, plan);
    let setup = driver.setup_effects();
    let rx = driver.rx_effects(plan);
    let tx = driver.tx_effects(plan);
    let arm = driver.arm_effects(plan);
    requests_add(setup + rx + tx + arm, driver.start_effects(plan));
    requests_add(setup + rx + tx, arm);
    requests_add(setup + rx, tx);
    requests_add(setup, rx);
    assert(requests(driver.program(plan)) =~= all_requests(driver, plan));
}

proof fn requests_up_to(driver: DmaDriver, plan: TransferPlan, index: int)
    requires
        0 <= index < plan.stages().len(),
    ensures
        requests(driver.program(plan).take(driver.position(plan, plan.stages()[index])))
            == all_requests(driver, plan).take(index + 1),
{
    let stage = plan.stages()[index];
    let position = driver.position(plan, stage);
    crate::transfer_laws::stages_in_order(plan);
    crate::transfer_laws::positions(driver, plan, stage);
    requests_of_the_program(driver, plan);
    requests_differ(driver, plan, index);
    up_to_a_request(driver.program(plan), position, index);
}

/// No two requests of a start are the same.
proof fn requests_differ(driver: DmaDriver, plan: TransferPlan, index: int)
    requires
        0 <= index < plan.stages().len(),
    ensures
        all_requests(driver, plan).len() == plan.stages().len(),
        forall|k: int|
            0 <= k < plan.stages().len() && #[trigger] all_requests(driver, plan)[k]
                == driver.request(plan, plan.stages()[index]) ==> k == index,
{
    assert forall|k: int|
        0 <= k < plan.stages().len() && #[trigger] all_requests(driver, plan)[k] == driver.request(
            plan,
            plan.stages()[index],
        ) implies k == index by {
        assert(all_requests(driver, plan)[k] == driver.request(plan, plan.stages()[k]));
    }
}

/// Up to a request that is asked for once, everything is asked for that comes before it, and it.
proof fn up_to_a_request(effects: Seq<Effect<Seq<FieldValue>>>, position: int, index: int)
    requires
        0 < position <= effects.len(),
        effects[position - 1] is Dma,
        forall|k: int|
            0 <= k < requests(effects).len() && #[trigger] requests(effects)[k] == effects[position
                - 1]->Dma_0 ==> k == index,
    ensures
        requests(effects.take(position)) == requests(effects).take(index + 1),
{
    let place = requests_are_among_effects(effects, position - 1);
    assert(requests(effects)[place] == effects[position - 1]->Dma_0);
    let done = effects.take(position);
    assert(done.drop_last() =~= effects.take(position - 1));
    assert(requests(done).len() == index + 1);
    requests_add(done, effects.skip(position));
    assert(effects =~= done + effects.skip(position));
    assert(requests(done) =~= requests(effects).take(index + 1));
}

} // verus!
