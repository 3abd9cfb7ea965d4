//! DMA (Direct Memory Access) functionality (Slave).

use crate::dma::{
    Buffer, Channel, ChannelRx, ChannelTx, DescriptorChain, DmaDescriptors, DmaError,
    PeripheralDmaChannel,
};
use crate::effect::{Effect, EffectQueue};
use crate::info::{mode_supports_dma, BusStatus, Info, Instance, Poll};
use crate::register::FieldValue;
use crate::slave::start::{DmaDriver, DmaStart, Stage, TransferPlan};
use crate::slave::{Spi, SpiView};
use crate::spi::{AnySpi, Blocking, DmaEligible, DriverMode, Error};
use crate::system::{Peripheral, PeripheralGuard};
use std::marker::PhantomData;
use vstd::prelude::*;

verus! {

/// The most bytes that one transfer can move each way.
pub const MAX_DMA_SIZE: usize = 32768 - 32;

/// Which ways a transfer goes.
#[derive(Clone, Copy, Debug, PartialEq, Eq, Structural)]
pub enum DmaTransfer {
    Tx,
    Rx,
    RxTx,
}

/// A transfer that the driver is starting.
pub struct StartTransfer {
    pub transfer: DmaTransfer,
    pub start: DmaStart,
}

impl StartTransfer {
    /// Whether the transfer has started, or why it has not.
    pub fn poll(&self) -> (poll: Poll<Result<DmaTransfer, Error>>)
        ensures
            match self.start.spec_stage() {
                Stage::Started => poll == Poll::Ready(Ok::<DmaTransfer, Error>(self.transfer)),
                Stage::Failed(error) => poll == Poll::Ready(
                    Err::<DmaTransfer, Error>(Error::DmaError(error)),
                ),
                _ => poll == Poll::<Result<DmaTransfer, Error>>::Pending,
            },
    {
        match self.start.stage() {
            Stage::Started => Poll::Ready(Ok(self.transfer)),
            Stage::Failed(error) => Poll::Ready(Err(Error::from(error))),
            _ => Poll::Pending,
        }
    }
}

/// How far waiting for a transfer has come.
#[derive(Clone, Copy, Debug, PartialEq, Eq, Structural)]
pub enum WaitState {
    /// The DMA channel or the bus is still at work.
    Transferring,
    /// The channel is done, and the bus is being flushed.
    Flushing,
    /// The wait is over.
    Done,
}

/// What waiting for a transfer looks at.
#[derive(Clone, Copy, Debug, PartialEq, Eq, Structural)]
pub struct WaitStatus {
    /// Whether the sending half of the channel is done.
    pub tx_done: bool,
    /// Whether the receiving half of the channel is done.
    pub rx_done: bool,
    /// The state of the bus.
    pub bus: BusStatus,
}

impl Info {
    /// Whether the halves of the channel that are waited for are done, and the bus is idle.
    pub open spec fn transfer_over(self, is_rx: bool, is_tx: bool, status: WaitStatus) -> bool {
        &&& is_tx ==> status.tx_done
        &&& is_rx ==> status.rx_done
        &&& !self.bus_busy(status.bus)
    }

    /// What one look at the hardware makes of a wait.
    pub open spec fn next_wait(
        self,
        is_rx: bool,
        is_tx: bool,
        state: WaitState,
        status: WaitStatus,
    ) -> WaitState {
        match state {
            WaitState::Transferring => if self.transfer_over(is_rx, is_tx, status) {
                WaitState::Flushing
            } else {
                WaitState::Transferring
            },
            WaitState::Flushing => if self.bus_busy(status.bus) {
                WaitState::Flushing
            } else {
                WaitState::Done
            },
            WaitState::Done => WaitState::Done,
        }
    }
}

/// A DMA capable SPI instance.
pub struct SpiDma<Dm: DriverMode> {
    spi: AnySpi,
    channel: Channel,
    rx_chain: DescriptorChain,
    tx_chain: DescriptorChain,
    _mode: PhantomData<Dm>,
    guard: PeripheralGuard,
    queue: EffectQueue,
}

/// What a DMA capable driver is made of.
#[verifier::ext_equal]
pub struct SpiDmaView {
    /// The controller.
    pub spi: AnySpi,
    /// The DMA channel.
    pub channel: Channel,
    /// The descriptors for receiving.
    pub rx_chain: DescriptorChain,
    /// The descriptors for sending.
    pub tx_chain: DescriptorChain,
    /// The peripheral that the driver keeps powered.
    pub guarded: Peripheral,
    /// What the driver has done and nobody has taken yet.
    pub effects: Seq<Effect<Seq<FieldValue>>>,
}

impl SpiDmaView {
    /// The data describing the controller.
    pub open spec fn info(self) -> Info {
        crate::info::spec_info(self.spi)
    }

    /// The driver keeps its own controller powered, and both halves of its channel can serve that
    /// controller.
    pub open spec fn wf(self) -> bool {
        &&& self.guarded == self.info().peripheral
        &&& self.channel.rx.channel.is_compatible_with(self.spi.spec_dma_peripheral())
        &&& self.channel.tx.channel.is_compatible_with(self.spi.spec_dma_peripheral())
    }

    /// The controller and its name for the DMA engine.
    pub open spec fn driver(self) -> DmaDriver {
        DmaDriver { info: self.info(), dma_peripheral: self.spi.spec_dma_peripheral() }
    }

    /// What starting a transfer between two buffers works with.
    pub open spec fn plan(self, read_buffer: Buffer, write_buffer: Buffer) -> TransferPlan {
        TransferPlan {
            rx_chain: self.rx_chain,
            tx_chain: self.tx_chain,
            read_buffer,
            write_buffer,
            rx: self.channel.rx,
            tx: self.channel.tx,
        }
    }

    /// The same driver after some more effects.
    pub open spec fn then_effects(self, effects: Seq<Effect<Seq<FieldValue>>>) -> SpiDmaView {
        SpiDmaView { effects: self.effects + effects, ..self }
    }

    /// Whether a transfer between two buffers has just been begun: its start is at its first
    /// stage, and what comes up to there is done.
    pub open spec fn begins(
        self,
        after: SpiDmaView,
        start: StartTransfer,
        transfer: DmaTransfer,
        read_buffer: Buffer,
        write_buffer: Buffer,
    ) -> bool {
        let plan = self.plan(read_buffer, write_buffer);
        &&& start.transfer == transfer
        &&& start.start.driver() == self.driver()
        &&& start.start.plan() == plan
        &&& start.start.spec_stage() == plan.first_stage()
        &&& after =~~= self.then_effects(
            self.driver().program(plan).take(self.driver().position(plan, plan.first_stage())),
        )
    }
}

impl<Dm: DriverMode> View for SpiDma<Dm> {
    type V = SpiDmaView;

    closed spec fn view(&self) -> SpiDmaView {
        SpiDmaView {
            spi: self.spi,
            channel: self.channel,
            rx_chain: self.rx_chain,
            tx_chain: self.tx_chain,
            guarded: self.guard.peripheral(),
            effects: self.queue@,
        }
    }
}

impl Spi<Blocking> {
    /// Configures the SPI peripheral with the provided DMA channel and descriptors.
    ///
    /// **Note**: ESP32 only supports Mode 1 and 3. The channel is one that can serve the
    /// controller.
    pub fn with_dma(
        self,
        channel: PeripheralDmaChannel,
        rx_descriptors: DmaDescriptors,
        tx_descriptors: DmaDescriptors,
    ) -> (this: SpiDma<Blocking>)
        requires
            mode_supports_dma(self@.info().chip, self@.mode),
            channel.is_compatible_with(self@.spi.spec_dma_peripheral()),
        ensures
            this@.wf(),
            this@ =~~= (SpiDmaView {
                spi: self@.spi,
                channel: Channel { rx: ChannelRx { channel }, tx: ChannelTx { channel } },
                rx_chain: DescriptorChain::new(rx_descriptors),
                tx_chain: DescriptorChain::new(tx_descriptors),
                guarded: self@.info().peripheral,
                effects: self@.effects + with_dma_effects(self@, channel),
            }),
    {
        let mut queue = self.queue;
        self.spi.info().set_data_mode(&mut queue, self.data_mode, true);
        let mut this = SpiDma::new(queue, self.spi, channel, rx_descriptors, tx_descriptors);
        self.guard.release(&mut this.queue);
        this
    }
}

/// Taking a channel into use for a controller, and keeping the controller powered.
pub open spec fn new_dma_effects(spi: AnySpi, channel: PeripheralDmaChannel) -> Seq<
    Effect<Seq<FieldValue>>,
> {
    seq![
        Effect::OpenChannel(channel),
        Effect::EnsureCompatible { channel, peripheral: spi.spec_dma_peripheral() },
        Effect::AcquireGuard(crate::info::spec_info(spi).peripheral),
    ]
}

/// Making a driver DMA capable. The guard that it had is given back last.
pub open spec fn with_dma_effects(spi: SpiView, channel: PeripheralDmaChannel) -> Seq<
    Effect<Seq<FieldValue>>,
> {
    spi.info().data_mode_effects(spi.mode) + new_dma_effects(spi.spi, channel) + seq![
        Effect::ReleaseGuard(spi.guarded),
    ]
}

impl SpiDma<Blocking> {
    /// Makes a driver of a controller and a DMA channel that can serve it. What waits in `queue`
    /// comes first.
    pub fn new(
        queue: EffectQueue,
        spi: AnySpi,
        channel: PeripheralDmaChannel,
        rx_descriptors: DmaDescriptors,
        tx_descriptors: DmaDescriptors,
    ) -> (this: Self)
        requires
            channel.is_compatible_with(spi.spec_dma_peripheral()),
        ensures
            this@.wf(),
            this@ =~~= (SpiDmaView {
                spi,
                channel: Channel { rx: ChannelRx { channel }, tx: ChannelTx { channel } },
                rx_chain: DescriptorChain::new(rx_descriptors),
                tx_chain: DescriptorChain::new(tx_descriptors),
                guarded: crate::info::spec_info(spi).peripheral,
                effects: queue@ + new_dma_effects(spi, channel),
            }),
    {
        let mut queue = queue;
        queue.push(Effect::OpenChannel(channel));
        queue.push(Effect::EnsureCompatible { channel, peripheral: spi.dma_peripheral() });
        let guard = PeripheralGuard::new(&mut queue, spi.info().peripheral);

        SpiDma {
            spi,
            channel: Channel { rx: ChannelRx { channel }, tx: ChannelTx { channel } },
            rx_chain: DescriptorChain::new(rx_descriptors),
            tx_chain: DescriptorChain::new(tx_descriptors),
            _mode: PhantomData,
            guard,
            queue,
        }
    }
}

impl<Dm: DriverMode> SpiDma<Dm> {
    /// The controller and its name for the DMA engine.
    pub fn driver(&self) -> (driver: DmaDriver)
        ensures
            driver == self@.driver(),
    {
        DmaDriver { info: self.spi.info(), dma_peripheral: self.spi.dma_peripheral() }
    }

    /// Register a buffer for a DMA write.
    ///
    /// The maximum amount of data to be sent is 32736 bytes.
    ///
    /// The write is driven by the SPI master's sclk signal and cs line.
    pub fn write(&mut self, words: &Buffer) -> (result: Result<StartTransfer, Error>)
        ensures
            final(self)@.wf() == old(self)@.wf(),
            match result {
                Ok(start) => {
                    &&& words.len <= 32736
                    &&& old(self)@.begins(
                        final(self)@,
                        start,
                        DmaTransfer::Tx,
                        Buffer::null(),
                        *words,
                    )
                },
                Err(error) => {
                    &&& words.len > 32736
                    &&& error == Error::MaxDmaTransferSizeExceeded
                    &&& final(self)@ == old(self)@
                },
            },
    {
        if words.len > MAX_DMA_SIZE {
            return Err(Error::MaxDmaTransferSizeExceeded);
        }
        let start = self.driver().start_transfer_dma(
            &mut self.queue,
            self.rx_chain,
            self.tx_chain,
            Buffer::null(),
            *words,
            self.channel.rx,
            self.channel.tx,
        );
        Ok(StartTransfer { transfer: DmaTransfer::Tx, start })
    }

    /// Register a buffer for a DMA read.
    ///
    /// The maximum amount of data to be received is 32736 bytes.
    ///
    /// The read is driven by the SPI master's sclk signal and cs line.
    pub fn read(&mut self, words: &Buffer) -> (result: Result<StartTransfer, Error>)
        ensures
            final(self)@.wf() == old(self)@.wf(),
            match result {
                Ok(start) => {
                    &&& words.len <= 32736
                    &&& old(self)@.begins(
                        final(self)@,
                        start,
                        DmaTransfer::Rx,
                        *words,
                        Buffer::null(),
                    )
                },
                Err(error) => {
                    &&& words.len > 32736
                    &&& error == Error::MaxDmaTransferSizeExceeded
                    &&& final(self)@ == old(self)@
                },
            },
    {
        if words.len > MAX_DMA_SIZE {
            return Err(Error::MaxDmaTransferSizeExceeded);
        }
        let start = self.driver().start_transfer_dma(
            &mut self.queue,
            self.rx_chain,
            self.tx_chain,
            *words,
            Buffer::null(),
            self.channel.rx,
            self.channel.tx,
        );
        Ok(StartTransfer { transfer: DmaTransfer::Rx, start })
    }

    /// Register buffers for a DMA transfer.
    ///
    /// The maximum amount of data to be sent/received is 32736 bytes.
    ///
    /// The data transfer is driven by the SPI master's sclk signal and cs line.
    pub fn transfer(&mut self, read_buffer: &Buffer, words: &Buffer) -> (result: Result<
        StartTransfer,
        Error,
    >)
        ensures
            final(self)@.wf() == old(self)@.wf(),
            match result {
                Ok(start) => {
                    &&& words.len <= 32736
                    &&& read_buffer.len <= 32736
                    &&& old(self)@.begins(
                        final(self)@,
                        start,
                        DmaTransfer::RxTx,
                        *read_buffer,
                        *words,
                    )
                },
                Err(error) => {
                    &&& words.len > 32736 || read_buffer.len > 32736
                    &&& error == Error::MaxDmaTransferSizeExceeded
                    &&& final(self)@ == old(self)@
                },
            },
    {
        if words.len > MAX_DMA_SIZE || read_buffer.len > MAX_DMA_SIZE {
            return Err(Error::MaxDmaTransferSizeExceeded);
        }
        let start = self.driver().start_transfer_dma(
            &mut self.queue,
            self.rx_chain,
            self.tx_chain,
            *read_buffer,
            *words,
            self.channel.rx,
            self.channel.tx,
        );
        Ok(StartTransfer { transfer: DmaTransfer::RxTx, start })
    }

    /// Takes the DMA engine's answer to what was asked of it last, and goes on with the start of
    /// the transfer, which is one that this driver began.
    pub fn resume(&mut self, start: StartTransfer, result: Result<(), DmaError>) -> (next:
        StartTransfer)
        requires
            start.start.driver() == old(self)@.driver(),
        ensures
            final(self)@.wf() == old(self)@.wf(),
            next.transfer == start.transfer,
            next.start.driver() == start.start.driver(),
            next.start.plan() == start.start.plan(),
            next.start.spec_stage() == start.start.plan().stage_after(
                start.start.spec_stage(),
                result,
            ),
            final(self)@ =~~= old(self)@.then_effects(
                start.start.driver().effects_after(
                    start.start.plan(),
                    start.start.spec_stage(),
                    result,
                ),
            ),
    {
        let StartTransfer { transfer, start } = start;
        StartTransfer { transfer, start: start.resume(&mut self.queue, result) }
    }

    /// Takes one look at the hardware on behalf of someone who waits for a transfer. The wait
    /// begins with [`WaitState::Transferring`].
    pub fn peripheral_wait_dma(
        &self,
        is_rx: bool,
        is_tx: bool,
        state: WaitState,
        status: &WaitStatus,
    ) -> (next: WaitState)
        ensures
            next == self@.info().next_wait(is_rx, is_tx, state, *status),
    {
        let info = self.spi.info();
        match state {
            WaitState::Transferring => {
                if (!is_tx || status.tx_done) && (!is_rx || status.rx_done) && !info.is_bus_busy(
                    &status.bus,
                ) {
                    WaitState::Flushing
                } else {
                    WaitState::Transferring
                }
            },
            WaitState::Flushing => match info.flush(&status.bus) {
                Poll::Pending => WaitState::Flushing,
                Poll::Ready(_) => WaitState::Done,
            },
            WaitState::Done => WaitState::Done,
        }
    }

    /// Hands out what the driver has done since this was last called, in order.
    pub fn take_effects(&mut self) -> (effects: Vec<Effect<Vec<FieldValue>>>)
        ensures
            final(self)@.wf() == old(self)@.wf(),
            crate::effect::views(effects@) == old(self)@.effects,
            final(self)@ == (SpiDmaView { effects: Seq::empty(), ..old(self)@ }),
    {
        self.queue.take()
    }

    /// Ends the driver, which no longer keeps its peripheral powered.
    pub fn release(self) -> (queue: EffectQueue)
        ensures
            queue@ == self@.effects.push(Effect::ReleaseGuard(self@.guarded)),
    {
        let mut queue = self.queue;
        self.guard.release(&mut queue);
        queue
    }

    /// The driver's name, for debugging.
    pub fn fmt(&self) -> (name: String)
        ensures
            name@ == "SpiDma"@,
    {
        "SpiDma".to_string()
    }
}

impl<Dm: DriverMode> SpiDma<Dm> {
    /// The half of the channel that sends.
    pub fn tx(&mut self) -> (tx: &mut ChannelTx)
        ensures
            old(self)@.wf() && final(tx).channel.is_compatible_with(
                old(self)@.spi.spec_dma_peripheral(),
            ) ==> final(self)@.wf(),
            *tx == old(self)@.channel.tx,
            final(self)@ == (SpiDmaView {
                channel: Channel { tx: *final(tx), ..old(self)@.channel },
                ..old(self)@
            }),
    {
        &mut self.channel.tx
    }

    /// The descriptors for sending.
    pub fn tx_chain(&mut self) -> (chain: &mut DescriptorChain)
        ensures
            final(self)@.wf() == old(self)@.wf(),
            *chain == old(self)@.tx_chain,
            final(self)@ == (SpiDmaView { tx_chain: *final(chain), ..old(self)@ }),
    {
        &mut self.tx_chain
    }

    /// The half of the channel that receives.
    pub fn rx(&mut self) -> (rx: &mut ChannelRx)
        ensures
            old(self)@.wf() && final(rx).channel.is_compatible_with(
                old(self)@.spi.spec_dma_peripheral(),
            ) ==> final(self)@.wf(),
            *rx == old(self)@.channel.rx,
            final(self)@ == (SpiDmaView {
                channel: Channel { rx: *final(rx), ..old(self)@.channel },
                ..old(self)@
            }),
    {
        &mut self.channel.rx
    }

    /// The descriptors for receiving.
    pub fn rx_chain(&mut self) -> (chain: &mut DescriptorChain)
        ensures
            final(self)@.wf() == old(self)@.wf(),
            *chain == old(self)@.rx_chain,
            final(self)@ == (SpiDmaView { rx_chain: *final(chain), ..old(self)@ }),
    {
        &mut self.rx_chain
    }
}

} // verus!
