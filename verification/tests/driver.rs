//! Making a driver, and giving it pins and a DMA channel.

use spi_slave::chip::Chip;
use spi_slave::dma::{
    ChannelRx, ChannelTx, DescriptorChain, DmaDescriptors, DmaPeripheral, PeripheralDmaChannel,
};
use spi_slave::effect::{Effect, EffectQueue};
use spi_slave::gpio::{InputSignal, OutputSignal, Pin};
use spi_slave::info::{Instance, InstanceDma};
use spi_slave::register::FieldValue;
use spi_slave::slave::dma::SpiDma;
use spi_slave::slave::Spi;
use spi_slave::spi::{AnySpi, Mode, SPI2, SPI3};
use spi_slave::system::Peripheral;

type Done = Vec<Effect<Vec<FieldValue>>>;

const RX: DmaDescriptors = DmaDescriptors { addr: 0x1000, count: 8 };
const TX: DmaDescriptors = DmaDescriptors { addr: 0x2000, count: 8 };
const CHANNEL: PeripheralDmaChannel = PeripheralDmaChannel {
    number: 3,
    serves_spi2: true,
    serves_spi3: true,
};

fn input(signal: InputSignal, pin: Pin) -> Done {
    vec![Effect::EnableInput { pin, enable: true }, Effect::ConnectInput { signal, pin }]
}

fn output(signal: OutputSignal, pin: Pin) -> Done {
    vec![Effect::SetToPushPullOutput { pin }, Effect::ConnectOutput { signal, pin }]
}

fn configuration(spi: &impl Instance, mode: Mode) -> Done {
    let mut queue = EffectQueue::new();
    spi.info().init(&mut queue);
    spi.info().set_data_mode(&mut queue, mode, false);
    queue.take()
}

#[test]
fn signals_of_the_instances() {
    let hspi = SPI2::new(Chip::Esp32).info();
    assert_eq!(
        (hspi.sclk, hspi.mosi, hspi.miso, hspi.cs),
        (InputSignal::HSPICLK, InputSignal::HSPID, OutputSignal::HSPIQ, InputSignal::HSPICS0)
    );
    let vspi = SPI3::new(Chip::Esp32).unwrap().info();
    assert_eq!(
        (vspi.sclk, vspi.mosi, vspi.miso, vspi.cs),
        (InputSignal::VSPICLK, InputSignal::VSPID, OutputSignal::VSPIQ, InputSignal::VSPICS0)
    );
    let fspi = SPI2::new(Chip::Esp32c6).info();
    assert_eq!(
        (fspi.sclk, fspi.mosi, fspi.miso, fspi.cs),
        (InputSignal::FSPICLK, InputSignal::FSPID, OutputSignal::FSPIQ, InputSignal::FSPICS0)
    );
    let spi3 = SPI3::new(Chip::Esp32s2).unwrap().info();
    assert_eq!(
        (spi3.sclk, spi3.mosi, spi3.miso, spi3.cs),
        (InputSignal::SPI3_CLK, InputSignal::SPI3_D, OutputSignal::SPI3_Q, InputSignal::SPI3_CS0)
    );
    assert_eq!(hspi.peripheral, Peripheral::Spi2);
    assert_eq!(vspi.peripheral, Peripheral::Spi3);
    assert_eq!(spi3.chip, Chip::Esp32s2);
}

#[test]
fn any_spi_is_the_instance_it_came_from() {
    let spi = SPI3::new(Chip::Esp32s3).unwrap();
    let info = spi.info();
    let any = spi.into_any();
    assert!(matches!(any, AnySpi::Spi3(_)));
    assert_eq!(any.info().sclk, info.sclk);
    assert!(any.info() == info);
    let any = SPI2::new(Chip::Esp32).into_any().into_any();
    assert!(matches!(any, AnySpi::Spi2(_)));
    assert_eq!(any.info().miso, OutputSignal::HSPIQ);
}

fn peripheral_of(spi: &impl InstanceDma) -> DmaPeripheral {
    spi.dma_peripheral()
}

#[test]
fn dma_knows_the_instances() {
    assert_eq!(peripheral_of(&SPI2::new(Chip::Esp32)), DmaPeripheral::Spi2);
    assert_eq!(peripheral_of(&SPI3::new(Chip::Esp32).unwrap()), DmaPeripheral::Spi3);
    assert_eq!(peripheral_of(&SPI2::new(Chip::Esp32).into_any()), DmaPeripheral::Spi2);
    assert_eq!(peripheral_of(&SPI3::new(Chip::Esp32).unwrap().into_any()), DmaPeripheral::Spi3);
}

#[test]
fn new_powers_configures_and_connects_nothing() {
    let spi = SPI2::new(Chip::Esp32c3);
    let mut expected: Done = vec![Effect::AcquireGuard(Peripheral::Spi2)];
    expected.extend(configuration(&spi, Mode::_2));
    expected.extend(input(InputSignal::FSPID, Pin::NoPin));
    expected.extend(output(OutputSignal::FSPIQ, Pin::NoPin));
    expected.extend(input(InputSignal::FSPICLK, Pin::NoPin));
    expected.extend(input(InputSignal::FSPICS0, Pin::NoPin));
    let mut driver = Spi::new(spi, Mode::_2);
    assert_eq!(driver.take_effects(), expected);
    assert_eq!(driver.take_effects(), vec![]);
}

#[test]
fn pins_go_to_their_signals() {
    let mut driver = Spi::new(SPI3::new(Chip::Esp32).unwrap(), Mode::_1);
    driver.take_effects();
    let mut driver = driver
        .with_sck(Pin::Line(0))
        .with_mosi(Pin::Line(2))
        .with_miso(Pin::Line(1))
        .with_cs(Pin::Line(3));
    let mut expected: Done = vec![];
    expected.extend(input(InputSignal::VSPICLK, Pin::Line(0)));
    expected.extend(input(InputSignal::VSPID, Pin::Line(2)));
    expected.extend(output(OutputSignal::VSPIQ, Pin::Line(1)));
    expected.extend(input(InputSignal::VSPICS0, Pin::Line(3)));
    assert_eq!(driver.take_effects(), expected);
}

#[test]
fn release_gives_the_guard_back() {
    let mut driver = Spi::new(SPI2::new(Chip::Esp32h2), Mode::_0);
    driver.take_effects();
    assert_eq!(driver.release().take(), vec![Effect::ReleaseGuard(Peripheral::Spi2)]);
}

#[test]
fn supports_dma_goes_by_chip_and_mode() {
    assert!(!Spi::new(SPI2::new(Chip::Esp32), Mode::_0).supports_dma());
    assert!(Spi::new(SPI2::new(Chip::Esp32), Mode::_1).supports_dma());
    assert!(!Spi::new(SPI2::new(Chip::Esp32), Mode::_2).supports_dma());
    assert!(Spi::new(SPI2::new(Chip::Esp32), Mode::_3).supports_dma());
    assert!(Spi::new(SPI2::new(Chip::Esp32s3), Mode::_0).supports_dma());
}

#[test]
fn with_dma_is_powered_throughout() {
    let mut driver = Spi::new(SPI3::new(Chip::Esp32s3).unwrap(), Mode::_0);
    driver.take_effects();
    let mut queue = EffectQueue::new();
    SPI3::new(Chip::Esp32s3).unwrap().info().set_data_mode(&mut queue, Mode::_0, true);
    let mut expected = queue.take();
    expected.push(Effect::OpenChannel(CHANNEL));
    expected.push(Effect::EnsureCompatible {
        channel: CHANNEL,
        peripheral: DmaPeripheral::Spi3,
    });
    expected.push(Effect::AcquireGuard(Peripheral::Spi3));
    expected.push(Effect::ReleaseGuard(Peripheral::Spi3));
    let mut driver = driver.with_dma(CHANNEL, RX, TX);
    assert_eq!(driver.take_effects(), expected);
    assert_eq!(driver.release().take(), vec![Effect::ReleaseGuard(Peripheral::Spi3)]);
}

#[test]
fn effects_before_with_dma_are_kept() {
    let mut plain = Spi::new(SPI2::new(Chip::Esp32), Mode::_3);
    let mut expected = plain.take_effects();
    let mut tail = plain.with_dma(CHANNEL, RX, TX);
    expected.extend(tail.take_effects());
    let mut driver = Spi::new(SPI2::new(Chip::Esp32), Mode::_3).with_dma(CHANNEL, RX, TX);
    assert_eq!(driver.take_effects(), expected);
}

#[test]
fn dma_driver_is_made_of_its_parts() {
    let mut queue = EffectQueue::new();
    SPI2::new(Chip::Esp32c2).info().setup_for_flush(&mut queue);
    let spi = SPI2::new(Chip::Esp32c2).into_any();
    let mut driver = SpiDma::new(queue, spi, CHANNEL, RX, TX);
    let effects = driver.take_effects();
    assert_eq!(effects.len(), 4);
    assert_eq!(effects[1], Effect::OpenChannel(CHANNEL));
    assert_eq!(effects[3], Effect::AcquireGuard(Peripheral::Spi2));
    assert_eq!(driver.driver().dma_peripheral, DmaPeripheral::Spi2);
    assert_eq!(driver.driver().info.chip, Chip::Esp32c2);
    assert_eq!(*driver.rx(), ChannelRx { channel: CHANNEL });
    assert_eq!(*driver.tx(), ChannelTx { channel: CHANNEL });
    assert_eq!(*driver.rx_chain(), DescriptorChain::new(RX));
    assert_eq!(*driver.tx_chain(), DescriptorChain::new(TX));
    assert_eq!(driver.fmt(), "SpiDma");
}

#[test]
fn parts_can_be_exchanged() {
    let mut driver = Spi::new(SPI2::new(Chip::Esp32c2), Mode::_0).with_dma(CHANNEL, RX, TX);
    *driver.tx_chain() = DescriptorChain::new(RX);
    let other = PeripheralDmaChannel { number: 1, serves_spi2: true, serves_spi3: true };
    *driver.rx() = ChannelRx { channel: other };
    assert_eq!(*driver.tx_chain(), DescriptorChain::new(RX));
    assert_eq!(*driver.rx_chain(), DescriptorChain::new(RX));
    assert_eq!(driver.rx().channel.number, 1);
    assert_eq!(driver.tx().channel.number, 3);
}

#[test]
fn channels_serve_what_they_say() {
    let two = PeripheralDmaChannel { number: 0, serves_spi2: true, serves_spi3: false };
    assert!(two.is_compatible_with(DmaPeripheral::Spi2));
    assert!(!two.is_compatible_with(DmaPeripheral::Spi3));
    let three = PeripheralDmaChannel { number: 1, serves_spi2: false, serves_spi3: true };
    assert!(!three.is_compatible_with(DmaPeripheral::Spi2));
    assert!(three.is_compatible_with(DmaPeripheral::Spi3));
}

#[test]
fn channel_is_checked_before_the_guard() {
    let two = PeripheralDmaChannel { number: 0, serves_spi2: true, serves_spi3: false };
    let spi = SPI2::new(Chip::Esp32).into_any();
    let mut driver = SpiDma::new(EffectQueue::new(), spi, two, RX, TX);
    assert_eq!(
        driver.take_effects(),
        vec![
            Effect::OpenChannel(two),
            Effect::EnsureCompatible { channel: two, peripheral: DmaPeripheral::Spi2 },
            Effect::AcquireGuard(Peripheral::Spi2),
        ]
    );
}
