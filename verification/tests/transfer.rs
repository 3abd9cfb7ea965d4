//! Starting transfers, and waiting for them.

use spi_slave::chip::Chip;
use spi_slave::dma::{
    Buffer, ChannelRx, ChannelTx, DescriptorChain, DmaDescriptors, DmaError, DmaPeripheral,
    DmaRequest, PeripheralDmaChannel,
};
use spi_slave::effect::{Effect, EffectQueue};
use spi_slave::gpio::Pin;
use spi_slave::info::{BusStatus, Instance, Poll};
use spi_slave::register::{
    clear_bit, set_bit, Access, Field, FieldValue, Register, RegisterBlock,
};
use spi_slave::slave::dma::{
    DmaTransfer, SpiDma, StartTransfer, WaitState, WaitStatus, MAX_DMA_SIZE,
};
use spi_slave::slave::start::{DmaDriver, Stage};
use spi_slave::slave::Spi;
use spi_slave::spi::{Blocking, DmaEligible, Error, Mode, SPI2};

type Done = Vec<Effect<Vec<FieldValue>>>;

const RX: DmaDescriptors = DmaDescriptors { addr: 0x1000, count: 8 };
const TX: DmaDescriptors = DmaDescriptors { addr: 0x2000, count: 8 };
const CHANNEL: PeripheralDmaChannel = PeripheralDmaChannel {
    number: 0,
    serves_spi2: true,
    serves_spi3: true,
};
const RECEIVE: Buffer = Buffer { addr: 0x4000, len: 32000 };
const SEND: Buffer = Buffer { addr: 0xc000, len: 32000 };
const NOTHING: Buffer = Buffer { addr: 0, len: 0 };

const FILL_RX: DmaRequest = DmaRequest::FillForRx {
    chain: DescriptorChain { descriptors: RX },
    circular: false,
    buffer: RECEIVE,
};
const FILL_TX: DmaRequest = DmaRequest::FillForTx {
    chain: DescriptorChain { descriptors: TX },
    circular: false,
    buffer: SEND,
};
const PREPARE_RX: DmaRequest = DmaRequest::PrepareRx {
    rx: ChannelRx { channel: CHANNEL },
    peripheral: DmaPeripheral::Spi2,
    chain: DescriptorChain { descriptors: RX },
};
const PREPARE_TX: DmaRequest = DmaRequest::PrepareTx {
    tx: ChannelTx { channel: CHANNEL },
    peripheral: DmaPeripheral::Spi2,
    chain: DescriptorChain { descriptors: TX },
};
const START_RX: DmaRequest = DmaRequest::StartRx { rx: ChannelRx { channel: CHANNEL } };
const START_TX: DmaRequest = DmaRequest::StartTx { tx: ChannelTx { channel: CHANNEL } };

fn driver_on(chip: Chip) -> SpiDma<Blocking> {
    let mut driver = Spi::new(SPI2::new(chip), Mode::_1).with_dma(CHANNEL, RX, TX);
    driver.take_effects();
    driver
}

fn dma(chip: Chip) -> DmaDriver {
    let spi = SPI2::new(chip);
    DmaDriver { info: spi.info(), dma_peripheral: spi.dma_peripheral() }
}

fn modify(register: Register, fields: Vec<FieldValue>) -> Effect<Vec<FieldValue>> {
    Effect::Register(RegisterBlock::Spi2, Access::Modify { register, fields })
}

fn setup(chip: Chip) -> Done {
    let mut queue = EffectQueue::new();
    dma(chip).enable_dma(&mut queue);
    dma(chip).info.reset_spi(&mut queue);
    queue.take()
}

fn arm(chip: Chip, rx_len: usize, tx_len: usize) -> Done {
    let mut queue = EffectQueue::new();
    if chip == Chip::Esp32 {
        dma(chip).info.prepare_length_and_lines(&mut queue, rx_len, tx_len);
    }
    dma(chip).reset_dma_before_usr_cmd(&mut queue);
    if chip != Chip::Esp32 {
        queue.push(modify(Register::DmaConf, vec![clear_bit(Field::DmaSlvSegTransEn)]));
    }
    dma(chip).clear_dma_interrupts(&mut queue);
    dma(chip).info.setup_for_flush(&mut queue);
    queue.push(modify(Register::Cmd, vec![set_bit(Field::Usr)]));
    queue.take()
}

fn then(mut effects: Done, request: DmaRequest) -> Done {
    effects.push(Effect::Dma(request));
    effects
}

fn finish(driver: &mut SpiDma<Blocking>, start: StartTransfer, answers: usize) -> StartTransfer {
    let mut start = start;
    for _ in 0..answers {
        assert_eq!(start.poll(), Poll::Pending);
        start = driver.resume(start, Ok(()));
    }
    start
}

#[test]
fn transfer_both_ways() {
    for chip in [Chip::Esp32, Chip::Esp32s2, Chip::Esp32s3, Chip::Esp32c3] {
        let mut driver = driver_on(chip);
        let start = driver.transfer(&RECEIVE, &SEND).ok().unwrap();
        assert_eq!(start.start.stage(), Stage::FillRx);
        assert_eq!(driver.take_effects(), then(setup(chip), FILL_RX));
        let start = driver.resume(start, Ok(()));
        assert_eq!(start.start.stage(), Stage::PrepareRx);
        assert_eq!(driver.take_effects(), then(vec![], PREPARE_RX));
        let start = driver.resume(start, Ok(()));
        assert_eq!(start.start.stage(), Stage::FillTx);
        assert_eq!(driver.take_effects(), then(vec![], FILL_TX));
        let start = driver.resume(start, Ok(()));
        assert_eq!(start.start.stage(), Stage::PrepareTx);
        assert_eq!(driver.take_effects(), then(vec![], PREPARE_TX));
        let start = driver.resume(start, Ok(()));
        assert_eq!(start.start.stage(), Stage::StartRx);
        assert_eq!(driver.take_effects(), then(arm(chip, 32000, 32000), START_RX));
        let start = driver.resume(start, Ok(()));
        assert_eq!(start.start.stage(), Stage::StartTx);
        assert_eq!(driver.take_effects(), then(vec![], START_TX));
        let start = driver.resume(start, Ok(()));
        assert_eq!(start.start.stage(), Stage::Started);
        assert_eq!(driver.take_effects(), vec![]);
        assert_eq!(start.poll(), Poll::Ready(Ok(DmaTransfer::RxTx)));
    }
}

#[test]
fn write_only_sends() {
    let mut driver = driver_on(Chip::Esp32);
    let start = driver.write(&SEND).ok().unwrap();
    let start = finish(&mut driver, start, 3);
    assert_eq!(start.poll(), Poll::Ready(Ok(DmaTransfer::Tx)));
    let mut expected = then(then(setup(Chip::Esp32), FILL_TX), PREPARE_TX);
    expected.extend(then(arm(Chip::Esp32, 0, 32000), START_TX));
    assert_eq!(driver.take_effects(), expected);
}

#[test]
fn read_only_receives() {
    let mut driver = driver_on(Chip::Esp32h2);
    let start = driver.read(&RECEIVE).ok().unwrap();
    let start = finish(&mut driver, start, 3);
    assert_eq!(start.poll(), Poll::Ready(Ok(DmaTransfer::Rx)));
    let mut expected = then(then(setup(Chip::Esp32h2), FILL_RX), PREPARE_RX);
    expected.extend(then(arm(Chip::Esp32h2, 32000, 0), START_RX));
    assert_eq!(driver.take_effects(), expected);
}

#[test]
fn empty_transfer_needs_no_dma() {
    for chip in [Chip::Esp32, Chip::Esp32c6] {
        let mut driver = driver_on(chip);
        let start = driver.transfer(&NOTHING, &NOTHING).ok().unwrap();
        assert_eq!(start.poll(), Poll::Ready(Ok(DmaTransfer::RxTx)));
        let mut expected = setup(chip);
        expected.extend(arm(chip, 0, 0));
        assert_eq!(driver.take_effects(), expected);
    }
}

#[test]
fn empty_write_is_still_a_write() {
    let mut driver = driver_on(Chip::Esp32c6);
    let start = driver.write(&NOTHING).ok().unwrap();
    assert_eq!(start.poll(), Poll::Ready(Ok(DmaTransfer::Tx)));
    let start = driver.read(&NOTHING).ok().unwrap();
    assert_eq!(start.poll(), Poll::Ready(Ok(DmaTransfer::Rx)));
}

#[test]
fn write_is_a_transfer_that_receives_nothing() {
    let mut one = driver_on(Chip::Esp32s2);
    let start = one.write(&SEND).ok().unwrap();
    finish(&mut one, start, 3);
    let mut other = driver_on(Chip::Esp32s2);
    let start = other.transfer(&Buffer { addr: 0x9000, len: 0 }, &SEND).ok().unwrap();
    finish(&mut other, start, 3);
    assert_eq!(one.take_effects(), other.take_effects());
}

#[test]
fn largest_buffers_are_accepted() {
    assert_eq!(MAX_DMA_SIZE, 32736);
    let most = Buffer { addr: 0x4000, len: 32736 };
    assert!(driver_on(Chip::Esp32).write(&most).is_ok());
    assert!(driver_on(Chip::Esp32).read(&most).is_ok());
    assert!(driver_on(Chip::Esp32).transfer(&most, &most).is_ok());
}

#[test]
fn larger_buffers_are_refused_and_nothing_is_done() {
    let most = Buffer { addr: 0x4000, len: 32736 };
    let more = Buffer { addr: 0x4000, len: 32737 };
    let huge = Buffer { addr: 0x4000, len: usize::MAX };
    let mut driver = driver_on(Chip::Esp32c3);
    let refused = Some(Error::MaxDmaTransferSizeExceeded);
    assert_eq!(driver.write(&more).err(), refused);
    assert_eq!(driver.read(&more).err(), refused);
    assert_eq!(driver.transfer(&more, &most).err(), refused);
    assert_eq!(driver.transfer(&most, &more).err(), refused);
    assert_eq!(driver.transfer(&huge, &huge).err(), refused);
    assert_eq!(driver.take_effects(), vec![]);
}

#[test]
fn each_fault_ends_the_start() {
    let order = [FILL_RX, PREPARE_RX, FILL_TX, PREPARE_TX, START_RX, START_TX];
    let go = modify(Register::Cmd, vec![set_bit(Field::Usr)]);
    for (good, request) in order.iter().enumerate() {
        let error = DmaError { code: 40 + good as u32 };
        let mut driver = driver_on(Chip::Esp32c3);
        let start = driver.transfer(&RECEIVE, &SEND).ok().unwrap();
        let start = finish(&mut driver, start, good);
        let start = driver.resume(start, Err(error));
        assert_eq!(start.start.stage(), Stage::Failed(error));
        assert_eq!(start.poll(), Poll::Ready(Err(Error::DmaError(error))));
        let effects = driver.take_effects();
        assert_eq!(effects.last(), Some(&Effect::Dma(*request)));
        assert_eq!(effects.contains(&go), good >= 4);
        let start = driver.resume(start, Ok(()));
        assert_eq!(start.start.stage(), Stage::Failed(error));
        let start = driver.resume(start, Err(DmaError { code: 7 }));
        assert_eq!(start.start.stage(), Stage::Failed(error));
        assert_eq!(driver.take_effects(), vec![]);
    }
}

#[test]
fn nothing_follows_a_started_transfer() {
    let mut driver = driver_on(Chip::Esp32c3);
    let start = driver.read(&RECEIVE).ok().unwrap();
    let start = finish(&mut driver, start, 3);
    driver.take_effects();
    let start = driver.resume(start, Err(DmaError { code: 1 }));
    assert_eq!(start.start.stage(), Stage::Started);
    assert_eq!(driver.take_effects(), vec![]);
}

#[test]
fn driver_starts_on_any_queue() {
    let mut queue = EffectQueue::new();
    let start = dma(Chip::Esp32).start_transfer_dma(
        &mut queue,
        DescriptorChain::new(RX),
        DescriptorChain::new(TX),
        RECEIVE,
        NOTHING,
        ChannelRx { channel: CHANNEL },
        ChannelTx { channel: CHANNEL },
    );
    assert_eq!(queue.take(), then(setup(Chip::Esp32), FILL_RX));
    let start = start.resume(&mut queue, Ok(()));
    assert_eq!(start.stage(), Stage::PrepareRx);
    assert_eq!(queue.take(), then(vec![], PREPARE_RX));
}

#[test]
fn dma_errors_are_errors() {
    let error = DmaError { code: 9 };
    assert_eq!(Error::from(error), Error::DmaError(error));
}

fn look(tx_done: bool, rx_done: bool, trans_done: bool) -> WaitStatus {
    WaitStatus {
        tx_done,
        rx_done,
        bus: BusStatus { slave_trans_done: trans_done, dma_int_raw_trans_done: trans_done },
    }
}

#[test]
fn wait_looks_at_what_is_waited_for() {
    let driver = driver_on(Chip::Esp32);
    for (is_rx, is_tx) in [(false, true), (true, false), (true, true), (false, false)] {
        for tx in [false, true] {
            for rx in [false, true] {
                for idle in [false, true] {
                    let over = (!is_tx || tx) && (!is_rx || rx) && idle;
                    let next = driver.peripheral_wait_dma(
                        is_rx,
                        is_tx,
                        WaitState::Transferring,
                        &look(tx, rx, idle),
                    );
                    let expected =
                        if over { WaitState::Flushing } else { WaitState::Transferring };
                    assert_eq!(next, expected);
                }
            }
        }
    }
}

#[test]
fn wait_flushes_before_it_is_over() {
    let driver = driver_on(Chip::Esp32c3);
    let looks = [
        (look(false, false, false), WaitState::Transferring),
        (look(true, true, false), WaitState::Transferring),
        (look(true, true, true), WaitState::Flushing),
        (look(true, true, false), WaitState::Flushing),
        (look(false, false, true), WaitState::Done),
        (look(false, false, false), WaitState::Done),
    ];
    let mut state = WaitState::Transferring;
    for (status, expected) in looks {
        state = driver.peripheral_wait_dma(true, true, state, &status);
        assert_eq!(state, expected);
    }
}

#[test]
fn wait_goes_by_the_flag_of_the_chip() {
    let slave = BusStatus { slave_trans_done: true, dma_int_raw_trans_done: false };
    let status = WaitStatus { tx_done: true, rx_done: true, bus: slave };
    let pdma = driver_on(Chip::Esp32s2);
    let gdma = driver_on(Chip::Esp32s3);
    assert_eq!(
        pdma.peripheral_wait_dma(true, false, WaitState::Transferring, &status),
        WaitState::Flushing
    );
    assert_eq!(
        gdma.peripheral_wait_dma(true, false, WaitState::Transferring, &status),
        WaitState::Transferring
    );
}

#[test]
fn whole_session() {
    let mut spi = Spi::new(SPI2::new(Chip::Esp32c3), Mode::_0)
        .with_sck(Pin::Line(0))
        .with_mosi(Pin::Line(2))
        .with_miso(Pin::Line(1))
        .with_cs(Pin::Line(3))
        .with_dma(CHANNEL, RX, TX);
    spi.take_effects();

    let start = spi.transfer(&RECEIVE, &SEND).ok().unwrap();
    let start = finish(&mut spi, start, 6);
    assert_eq!(start.poll(), Poll::Ready(Ok(DmaTransfer::RxTx)));

    let done = look(true, true, true);
    let state = spi.peripheral_wait_dma(true, true, WaitState::Transferring, &done);
    let state = spi.peripheral_wait_dma(true, true, state, &done);
    assert_eq!(state, WaitState::Done);
}
