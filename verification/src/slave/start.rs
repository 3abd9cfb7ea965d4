//! Starting a transfer: a sequence of register accesses and requests to the DMA engine, in which
//! each request is answered before the next step.

use crate::chip::Chip;
use crate::dma::{
    Buffer, ChannelRx, ChannelTx, DescriptorChain, DmaError, DmaPeripheral, DmaRequest,
};
use crate::effect::{Effect, EffectQueue};
use crate::info::Info;
use crate::register::{
    bit, clear_bit, clear_bit_by_one, set_bit, Field, FieldValue, Register, RegisterBlock,
};
use vstd::prelude::*;

verus! {

/// What the start of a transfer works with.
#[derive(Clone, Copy, Debug, PartialEq, Eq, Structural)]
pub struct TransferPlan {
    /// The descriptors for receiving.
    pub rx_chain: DescriptorChain,
    /// The descriptors for sending.
    pub tx_chain: DescriptorChain,
    /// Where received data goes.
    pub read_buffer: Buffer,
    /// Where data to send comes from.
    pub write_buffer: Buffer,
    /// The half of the channel that receives.
    pub rx: ChannelRx,
    /// The half of the channel that sends.
    pub tx: ChannelTx,
}

/// How far the start of a transfer has come.
#[derive(Clone, Copy, Debug, PartialEq, Eq, Structural)]
pub enum Stage {
    /// The receiving chain is being filled.
    FillRx,
    /// The receiving half is being prepared.
    PrepareRx,
    /// The sending chain is being filled.
    FillTx,
    /// The sending half is being prepared.
    PrepareTx,
    /// The receiving half is being started.
    StartRx,
    /// The sending half is being started.
    StartTx,
    /// The transfer has started.
    Started,
    /// The DMA engine reported a fault, and the start was given up.
    Failed(DmaError),
}

impl TransferPlan {
    /// Whether anything is to be received.
    pub open spec fn receives(self) -> bool {
        self.read_buffer.len > 0
    }

    /// Whether anything is to be sent.
    pub open spec fn sends(self) -> bool {
        self.write_buffer.len > 0
    }

    /// Whether the start of this transfer comes by a stage.
    pub open spec fn has_stage(self, stage: Stage) -> bool {
        match stage {
            Stage::FillRx | Stage::PrepareRx | Stage::StartRx => self.receives(),
            Stage::FillTx | Stage::PrepareTx | Stage::StartTx => self.sends(),
            Stage::Started | Stage::Failed(_) => true,
        }
    }

    /// The stage that the start begins with.
    pub open spec fn first_stage(self) -> Stage {
        if self.receives() {
            Stage::FillRx
        } else if self.sends() {
            Stage::FillTx
        } else {
            Stage::Started
        }
    }

    /// The stage that follows when what a stage waits for has succeeded.
    pub open spec fn next_stage(self, stage: Stage) -> Stage {
        match stage {
            Stage::FillRx => Stage::PrepareRx,
            Stage::PrepareRx => if self.sends() {
                Stage::FillTx
            } else {
                Stage::StartRx
            },
            Stage::FillTx => Stage::PrepareTx,
            Stage::PrepareTx => if self.receives() {
                Stage::StartRx
            } else {
                Stage::StartTx
            },
            Stage::StartRx => if self.sends() {
                Stage::StartTx
            } else {
                Stage::Started
            },
            Stage::StartTx => Stage::Started,
            Stage::Started | Stage::Failed(_) => stage,
        }
    }

    /// The stage that follows an answer of the DMA engine. At the end, and after a fault, there
    /// is none to follow.
    pub open spec fn stage_after(self, stage: Stage, result: Result<(), DmaError>) -> Stage {
        match stage {
            Stage::Started | Stage::Failed(_) => stage,
            _ => match result {
                Ok(_) => self.next_stage(stage),
                Err(error) => Stage::Failed(error),
            },
        }
    }

    /// The stages that wait for the DMA engine, in order.
    pub open spec fn stages(self) -> Seq<Stage> {
        (if self.receives() {
            seq![Stage::FillRx, Stage::PrepareRx]
        } else {
            seq![]
        }) + (if self.sends() {
            seq![Stage::FillTx, Stage::PrepareTx]
        } else {
            seq![]
        }) + (if self.receives() {
            seq![Stage::StartRx]
        } else {
            seq![]
        }) + (if self.sends() {
            seq![Stage::StartTx]
        } else {
            seq![]
        })
    }

    /// How many of the stages come before the controller is let go.
    pub open spec fn preparations(self) -> int {
        (if self.receives() {
            2int
        } else {
            0
        }) + (if self.sends() {
            2int
        } else {
            0
        })
    }

    /// The stage that the start is at after some answers of the DMA engine.
    pub open spec fn stage_after_all(self, results: Seq<Result<(), DmaError>>) -> Stage
        decreases results.len(),
    {
        if results.len() == 0 {
            self.first_stage()
        } else {
            self.stage_after(self.stage_after_all(results.drop_last()), results.last())
        }
    }
}

/// A controller and its name for the DMA engine.
#[derive(Clone, Copy, Debug)]
pub struct DmaDriver {
    pub info: Info,
    pub dma_peripheral: DmaPeripheral,
}

impl DmaDriver {
    /// The reset bits of the controller's own DMA engine, all set or all cleared.
    pub open spec fn rst_effects(self, set: bool) -> Seq<Effect<Seq<FieldValue>>> {
        seq![
            Effect::modify(
                self.info.register_block,
                Register::DmaConf,
                seq![
                    bit(Field::InRst, set),
                    bit(Field::OutRst, set),
                    bit(Field::AhbmFifoRst, set),
                    bit(Field::AhbmRst, set),
                ],
            ),
        ] + (if self.info.chip == Chip::Esp32s2 {
            seq![
                Effect::modify(
                    self.info.register_block,
                    Register::DmaConf,
                    seq![bit(Field::DmaInfifoFullClr, set)],
                ),
            ]
        } else {
            seq![]
        })
    }

    /// Getting the DMA path of the controller ready: switched on where the engine is shared,
    /// reset where it is the controller's own.
    pub open spec fn enable_dma_effects(self) -> Seq<Effect<Seq<FieldValue>>> {
        if self.info.chip.has_gdma() {
            seq![
                Effect::modify(
                    self.info.register_block,
                    Register::DmaConf,
                    seq![
                        set_bit(Field::DmaTxEna),
                        set_bit(Field::DmaRxEna),
                        clear_bit(Field::RxEofEn),
                    ],
                ),
            ]
        } else {
            self.rst_effects(true) + self.rst_effects(false)
        }
    }

    /// Emptying the controller's FIFOs, where the engine is shared.
    pub open spec fn reset_dma_effects(self) -> Seq<Effect<Seq<FieldValue>>> {
        if self.info.chip.has_gdma() {
            seq![
                Effect::modify(
                    self.info.register_block,
                    Register::DmaConf,
                    seq![
                        set_bit(Field::RxAfifoRst),
                        set_bit(Field::BufAfifoRst),
                        set_bit(Field::DmaAfifoRst),
                    ],
                ),
            ]
        } else {
            seq![]
        }
    }

    /// Clearing the interrupts that a transfer can raise.
    pub open spec fn clear_interrupts_effects(self) -> Seq<Effect<Seq<FieldValue>>> {
        seq![
            Effect::write(
                self.info.register_block,
                Register::DmaIntClr,
                if self.info.chip.has_gdma() {
                    seq![
                        clear_bit_by_one(Field::DmaInfifoFullErr),
                        clear_bit_by_one(Field::DmaOutfifoEmptyErr),
                        clear_bit_by_one(Field::TransDone),
                        clear_bit_by_one(Field::MstRxAfifoWfullErr),
                        clear_bit_by_one(Field::MstTxAfifoRemptyErr),
                    ]
                } else {
                    seq![
                        clear_bit_by_one(Field::InlinkDscrEmpty),
                        clear_bit_by_one(Field::OutlinkDscrError),
                        clear_bit_by_one(Field::InlinkDscrError),
                        clear_bit_by_one(Field::InDone),
                        clear_bit_by_one(Field::InErrEof),
                        clear_bit_by_one(Field::InSucEof),
                        clear_bit_by_one(Field::OutDone),
                        clear_bit_by_one(Field::OutEof),
                        clear_bit_by_one(Field::OutTotalEof),
                    ]
                },
            ),
        ]
    }

    /// What comes before anything is asked of the DMA engine.
    pub open spec fn setup_effects(self) -> Seq<Effect<Seq<FieldValue>>> {
        self.enable_dma_effects() + self.info.reset_effects()
    }

    /// Getting the engine ready to receive, where anything is to be received.
    pub open spec fn rx_effects(self, plan: TransferPlan) -> Seq<Effect<Seq<FieldValue>>> {
        if plan.receives() {
            seq![
                Effect::Dma(self.request(plan, Stage::FillRx)),
                Effect::Dma(self.request(plan, Stage::PrepareRx)),
            ]
        } else {
            seq![]
        }
    }

    /// Getting the engine ready to send, where anything is to be sent.
    pub open spec fn tx_effects(self, plan: TransferPlan) -> Seq<Effect<Seq<FieldValue>>> {
        if plan.sends() {
            seq![
                Effect::Dma(self.request(plan, Stage::FillTx)),
                Effect::Dma(self.request(plan, Stage::PrepareTx)),
            ]
        } else {
            seq![]
        }
    }

    /// Arming the controller once the engine is ready. The last effect lets the controller go.
    pub open spec fn arm_effects(self, plan: TransferPlan) -> Seq<Effect<Seq<FieldValue>>> {
        (if self.info.chip == Chip::Esp32 {
            self.info.length_effects(plan.read_buffer.len as int, plan.write_buffer.len as int)
        } else {
            seq![]
        }) + self.reset_dma_effects() + (if self.info.chip == Chip::Esp32 {
            seq![]
        } else {
            seq![
                Effect::modify(
                    self.info.register_block,
                    Register::DmaConf,
                    seq![clear_bit(Field::DmaSlvSegTransEn)],
                ),
            ]
        }) + self.clear_interrupts_effects() + self.info.setup_for_flush_effects() + seq![
            self.go_effect(),
        ]
    }

    /// The access that lets the controller go.
    pub open spec fn go_effect(self) -> Effect<Seq<FieldValue>> {
        Effect::modify(self.info.register_block, Register::Cmd, seq![set_bit(Field::Usr)])
    }

    /// Starting the halves of the channel that have something to do.
    pub open spec fn start_effects(self, plan: TransferPlan) -> Seq<Effect<Seq<FieldValue>>> {
        (if plan.receives() {
            seq![Effect::Dma(self.request(plan, Stage::StartRx))]
        } else {
            seq![]
        }) + (if plan.sends() {
            seq![Effect::Dma(self.request(plan, Stage::StartTx))]
        } else {
            seq![]
        })
    }

    /// Everything that starting a transfer does, if nothing fails.
    pub open spec fn program(self, plan: TransferPlan) -> Seq<Effect<Seq<FieldValue>>> {
        self.setup_effects() + self.rx_effects(plan) + self.tx_effects(plan) + self.arm_effects(
            plan,
        ) + self.start_effects(plan)
    }

    /// What a stage asks of the DMA engine.
    pub open spec fn request(self, plan: TransferPlan, stage: Stage) -> DmaRequest
        recommends
            !(stage is Started),
            !(stage is Failed),
    {
        match stage {
            Stage::FillRx => DmaRequest::FillForRx {
                chain: plan.rx_chain,
                circular: false,
                buffer: plan.read_buffer,
            },
            Stage::PrepareRx => DmaRequest::PrepareRx {
                rx: plan.rx,
                peripheral: self.dma_peripheral,
                chain: plan.rx_chain,
            },
            Stage::FillTx => DmaRequest::FillForTx {
                chain: plan.tx_chain,
                circular: false,
                buffer: plan.write_buffer,
            },
            Stage::PrepareTx => DmaRequest::PrepareTx {
                tx: plan.tx,
                peripheral: self.dma_peripheral,
                chain: plan.tx_chain,
            },
            Stage::StartRx => DmaRequest::StartRx { rx: plan.rx },
            _ => DmaRequest::StartTx { tx: plan.tx },
        }
    }

    /// How much of the program has been done when a stage waits for the DMA engine: everything
    /// up to the stage's own request, and that too.
    pub open spec fn position(self, plan: TransferPlan, stage: Stage) -> int {
        let before_rx = self.setup_effects().len() as int;
        let before_tx = before_rx + self.rx_effects(plan).len();
        let before_arm = before_tx + self.tx_effects(plan).len();
        let before_start = before_arm + self.arm_effects(plan).len();
        match stage {
            Stage::FillRx => before_rx + 1,
            Stage::PrepareRx => before_rx + 2,
            Stage::FillTx => before_tx + 1,
            Stage::PrepareTx => before_tx + 2,
            Stage::StartRx => before_start + 1,
            _ => before_start + self.start_effects(plan).len(),
        }
    }

    /// What is done on an answer of the DMA engine: the program up to the next stage's request, or
    /// nothing where there is no next stage.
    pub open spec fn effects_after(
        self,
        plan: TransferPlan,
        stage: Stage,
        result: Result<(), DmaError>,
    ) -> Seq<Effect<Seq<FieldValue>>> {
        match plan.stage_after(stage, result) {
            Stage::Failed(_) => seq![],
            next => self.program(plan).subrange(
                self.position(plan, stage),
                self.position(plan, next),
            ),
        }
    }

    /// Everything that the start has done after some answers of the DMA engine.
    pub open spec fn effects_after_all(
        self,
        plan: TransferPlan,
        results: Seq<Result<(), DmaError>>,
    ) -> Seq<Effect<Seq<FieldValue>>>
        decreases results.len(),
    {
        if results.len() == 0 {
            self.program(plan).take(self.position(plan, plan.first_stage()))
        } else {
            self.effects_after_all(plan, results.drop_last()) + self.effects_after(
                plan,
                plan.stage_after_all(results.drop_last()),
                results.last(),
            )
        }
    }

    /// Whether the lengths of a transfer can be written to the controller's registers.
    pub open spec fn lengths_fit(self, plan: TransferPlan) -> bool {
        self.info.chip == Chip::Esp32 ==> 8 * plan.read_buffer.len <= u32::MAX && 8
            * plan.write_buffer.len <= u32::MAX
    }
}

/// A transfer on its way to being started: it waits for the DMA engine to do what was asked of
/// it last, or it has come to its end.
pub struct DmaStart {
    driver: DmaDriver,
    plan: TransferPlan,
    stage: Stage,
}

impl DmaStart {
    #[verifier::type_invariant]
    spec fn inv(self) -> bool {
        &&& self.plan.has_stage(self.stage)
        &&& self.driver.lengths_fit(self.plan)
    }

    /// The driver that starts the transfer.
    pub closed spec fn driver(&self) -> DmaDriver {
        self.driver
    }

    /// What the start works with.
    pub closed spec fn plan(&self) -> TransferPlan {
        self.plan
    }

    /// How far the start has come.
    pub closed spec fn spec_stage(&self) -> Stage {
        self.stage
    }

    /// How far the start has come.
    pub fn stage(&self) -> (stage: Stage)
        ensures
            stage == self.spec_stage(),
    {
        self.stage
    }

    /// Takes the DMA engine's answer to what was asked of it last, and goes on to where the
    /// engine is needed again. After a fault, or at the end, there is nothing left to do.
    pub fn resume(self, queue: &mut EffectQueue, result: Result<(), DmaError>) -> (start: DmaStart)
        ensures
            start.driver() == self.driver(),
            start.plan() == self.plan(),
            start.spec_stage() == self.plan().stage_after(self.spec_stage(), result),
            final(queue)@ =~~= old(queue)@ + self.driver().effects_after(
                self.plan(),
                self.spec_stage(),
                result,
            ),
    {
        proof {
            use_type_invariant(&self);
        }
        let driver = self.driver;
        let plan = self.plan;
        let stage = match self.stage {
            Stage::Started | Stage::Failed(_) => self.stage,
            stage => match result {
                Err(error) => Stage::Failed(error),
                Ok(_) => match stage {
                    Stage::FillRx => {
                        queue.push(
                            Effect::Dma(
                                DmaRequest::PrepareRx {
                                    rx: plan.rx,
                                    peripheral: driver.dma_peripheral,
                                    chain: plan.rx_chain,
                                },
                            ),
                        );
                        Stage::PrepareRx
                    },
                    Stage::PrepareRx => driver.continue_with_tx(queue, &plan),
                    Stage::FillTx => {
                        queue.push(
                            Effect::Dma(
                                DmaRequest::PrepareTx {
                                    tx: plan.tx,
                                    peripheral: driver.dma_peripheral,
                                    chain: plan.tx_chain,
                                },
                            ),
                        );
                        Stage::PrepareTx
                    },
                    Stage::PrepareTx => driver.continue_with_arm(queue, &plan),
                    Stage::StartRx => driver.continue_with_start_tx(queue, &plan),
                    _ => Stage::Started,
                },
            },
        };
        DmaStart { driver, plan, stage }
    }
}

impl DmaDriver {
    /// The registers of the controller.
    pub fn regs(&self) -> (block: &RegisterBlock)
        ensures
            *block == self.info.register_block,
    {
        self.info.regs()
    }

    /// Begins to start a transfer, as far as to where the DMA engine is needed.
    pub fn start_transfer_dma(
        &self,
        queue: &mut EffectQueue,
        rx_chain: DescriptorChain,
        tx_chain: DescriptorChain,
        read_buffer: Buffer,
        write_buffer: Buffer,
        rx: ChannelRx,
        tx: ChannelTx,
    ) -> (start: DmaStart)
        requires
            self.lengths_fit(
                (TransferPlan { rx_chain, tx_chain, read_buffer, write_buffer, rx, tx }),
            ),
        ensures
            start.driver() == *self,
            start.plan() == (TransferPlan {
                rx_chain,
                tx_chain,
                read_buffer,
                write_buffer,
                rx,
                tx,
            }),
            start.spec_stage() == start.plan().first_stage(),
            final(queue)@ =~~= old(queue)@ + self.program(start.plan()).take(
                self.position(start.plan(), start.spec_stage()),
            ),
    {
        let plan = TransferPlan { rx_chain, tx_chain, read_buffer, write_buffer, rx, tx };
        self.enable_dma(queue);

        self.info.reset_spi(queue);

        let stage = if read_buffer.len > 0 {
            queue.push(
                Effect::Dma(
                    DmaRequest::FillForRx { chain: rx_chain, circular: false, buffer: read_buffer },
                ),
            );
            Stage::FillRx
        } else {
            self.continue_with_tx(queue, &plan)
        };
        DmaStart { driver: *self, plan, stage }
    }

    /// Goes on once receiving is prepared or not wanted.
    fn continue_with_tx(&self, queue: &mut EffectQueue, plan: &TransferPlan) -> (stage: Stage)
        requires
            self.lengths_fit(*plan),
        ensures
            stage == (if plan.sends() {
                Stage::FillTx
            } else if plan.receives() {
                Stage::StartRx
            } else {
                Stage::Started
            }),
            final(queue)@ =~~= old(queue)@ + self.program(*plan).subrange(
                (self.setup_effects().len() + self.rx_effects(*plan).len()) as int,
                self.position(*plan, stage),
            ),
    {
        if plan.write_buffer.len > 0 {
            queue.push(
                Effect::Dma(
                    DmaRequest::FillForTx {
                        chain: plan.tx_chain,
                        circular: false,
                        buffer: plan.write_buffer,
                    },
                ),
            );
            Stage::FillTx
        } else {
            self.continue_with_arm(queue, plan)
        }
    }

    /// Goes on once the DMA engine is prepared both ways, as far as wanted.
    fn continue_with_arm(&self, queue: &mut EffectQueue, plan: &TransferPlan) -> (stage: Stage)
        requires
            self.lengths_fit(*plan),
        ensures
            stage == (if plan.receives() {
                Stage::StartRx
            } else if plan.sends() {
                Stage::StartTx
            } else {
                Stage::Started
            }),
            final(queue)@ =~~= old(queue)@ + self.program(*plan).subrange(
                (self.setup_effects().len() + self.rx_effects(*plan).len() + self.tx_effects(
                    *plan,
                ).len()) as int,
                self.position(*plan, stage),
            ),
    {
        let regs = *self.regs();
        let ghost before = queue@;

        if self.info.chip == Chip::Esp32 {
            self.info.prepare_length_and_lines(
                queue,
                plan.read_buffer.len,
                plan.write_buffer.len,
            );
        }
        self.reset_dma_before_usr_cmd(queue);

        if self.info.chip != Chip::Esp32 {
            queue.modify(regs, Register::DmaConf, vec![clear_bit(Field::DmaSlvSegTransEn)]);
        }
        self.clear_dma_interrupts(queue);
        self.info.setup_for_flush(queue);
        queue.modify(regs, Register::Cmd, vec![set_bit(Field::Usr)]);
        assert(queue@ =~~= before + self.arm_effects(*plan));

        if plan.read_buffer.len > 0 {
            queue.push(Effect::Dma(DmaRequest::StartRx { rx: plan.rx }));
            Stage::StartRx
        } else {
            self.continue_with_start_tx(queue, plan)
        }
    }

    /// Goes on once the receiving half is started or not wanted.
    fn continue_with_start_tx(&self, queue: &mut EffectQueue, plan: &TransferPlan) -> (stage: Stage)
        ensures
            stage == (if plan.sends() {
                Stage::StartTx
            } else {
                Stage::Started
            }),
            final(queue)@ =~~= old(queue)@ + (if plan.sends() {
                seq![Effect::Dma(self.request(*plan, Stage::StartTx))]
            } else {
                seq![]
            }),
    {
        if plan.write_buffer.len > 0 {
            queue.push(Effect::Dma(DmaRequest::StartTx { tx: plan.tx }));
            Stage::StartTx
        } else {
            Stage::Started
        }
    }

    /// Empties the controller's FIFOs, where the DMA engine is shared.
    pub fn reset_dma_before_usr_cmd(&self, queue: &mut EffectQueue)
        ensures
            final(queue)@ =~~= old(queue)@ + self.reset_dma_effects(),
    {
        if self.info.chip.has_gdma() {
            queue.modify(
                *self.regs(),
                Register::DmaConf,
                vec![
                    set_bit(Field::RxAfifoRst),
                    set_bit(Field::BufAfifoRst),
                    set_bit(Field::DmaAfifoRst),
                ],
            );
        }
    }

    /// Sets or clears the reset bits of the controller's own DMA engine.
    fn set_rst_bit(&self, queue: &mut EffectQueue, set: bool)
        ensures
            final(queue)@ =~~= old(queue)@ + self.rst_effects(set),
    {
        let reg_block = *self.regs();
        queue.modify(
            reg_block,
            Register::DmaConf,
            vec![
                bit(Field::InRst, set),
                bit(Field::OutRst, set),
                bit(Field::AhbmFifoRst, set),
                bit(Field::AhbmRst, set),
            ],
        );
        if self.info.chip == Chip::Esp32s2 {
            queue.modify(reg_block, Register::DmaConf, vec![bit(Field::DmaInfifoFullClr, set)]);
        }
    }

    /// Gets the DMA path of the controller ready.
    pub fn enable_dma(&self, queue: &mut EffectQueue)
        ensures
            final(queue)@ =~~= old(queue)@ + self.enable_dma_effects(),
    {
        if self.info.chip.has_gdma() {
            queue.modify(
                *self.regs(),
                Register::DmaConf,
                vec![
                    set_bit(Field::DmaTxEna),
                    set_bit(Field::DmaRxEna),
                    clear_bit(Field::RxEofEn),
                ],
            );
        } else {
            self.set_rst_bit(queue, true);
            self.set_rst_bit(queue, false);
        }
    }

    /// Clears the interrupts that a transfer can raise.
    pub fn clear_dma_interrupts(&self, queue: &mut EffectQueue)
        ensures
            final(queue)@ =~~= old(queue)@ + self.clear_interrupts_effects(),
    {
        let fields = if self.info.chip.has_gdma() {
            vec![
                clear_bit_by_one(Field::DmaInfifoFullErr),
                clear_bit_by_one(Field::DmaOutfifoEmptyErr),
                clear_bit_by_one(Field::TransDone),
                clear_bit_by_one(Field::MstRxAfifoWfullErr),
                clear_bit_by_one(Field::MstTxAfifoRemptyErr),
            ]
        } else {
            vec![
                clear_bit_by_one(Field::InlinkDscrEmpty),
                clear_bit_by_one(Field::OutlinkDscrError),
                clear_bit_by_one(Field::InlinkDscrError),
                clear_bit_by_one(Field::InDone),
                clear_bit_by_one(Field::InErrEof),
                clear_bit_by_one(Field::InSucEof),
                clear_bit_by_one(Field::OutDone),
                clear_bit_by_one(Field::OutEof),
                clear_bit_by_one(Field::OutTotalEof),
            ]
        };
        queue.write(*self.regs(), Register::DmaIntClr, fields);
    }
}

} // verus!
