//! What is known of an SPI controller, and the register work of the slave driver.

use crate::chip::Chip;
use crate::effect::{Effect, EffectQueue};
use crate::gpio::{InputSignal, OutputSignal};
use crate::register::{
    bit, bits, clear_bit, clear_bit_by_one, set_bit, Field, FieldValue, Register, RegisterBlock,
};
use crate::spi::{AnySpi, DmaEligible, Error, Mode, SPI2, SPI3};
use crate::system::Peripheral;
use vstd::prelude::*;

verus! {

/// Peripheral data describing a particular SPI instance.
#[non_exhaustive]
#[derive(Clone, Copy, Debug)]
pub struct Info {
    /// The chip that the instance is part of.
    pub chip: Chip,
    /// The register block for this SPI instance.
    pub register_block: RegisterBlock,
    /// System peripheral marker.
    pub peripheral: Peripheral,
    /// SCLK signal.
    pub sclk: InputSignal,
    /// MOSI signal.
    pub mosi: InputSignal,
    /// MISO signal.
    pub miso: OutputSignal,
    /// Chip select signal.
    pub cs: InputSignal,
}

/// The data describing the SPI2 controller of a chip.
pub open spec fn spi2_info(chip: Chip) -> Info {
    if chip == Chip::Esp32 {
        Info {
            chip,
            register_block: RegisterBlock::Spi2,
            peripheral: Peripheral::Spi2,
            sclk: InputSignal::HSPICLK,
            mosi: InputSignal::HSPID,
            miso: OutputSignal::HSPIQ,
            cs: InputSignal::HSPICS0,
        }
    } else {
        Info {
            chip,
            register_block: RegisterBlock::Spi2,
            peripheral: Peripheral::Spi2,
            sclk: InputSignal::FSPICLK,
            mosi: InputSignal::FSPID,
            miso: OutputSignal::FSPIQ,
            cs: InputSignal::FSPICS0,
        }
    }
}

/// The data describing the SPI3 controller of a chip.
pub open spec fn spi3_info(chip: Chip) -> Info {
    if chip == Chip::Esp32 {
        Info {
            chip,
            register_block: RegisterBlock::Spi3,
            peripheral: Peripheral::Spi3,
            sclk: InputSignal::VSPICLK,
            mosi: InputSignal::VSPID,
            miso: OutputSignal::VSPIQ,
            cs: InputSignal::VSPICS0,
        }
    } else {
        Info {
            chip,
            register_block: RegisterBlock::Spi3,
            peripheral: Peripheral::Spi3,
            sclk: InputSignal::SPI3_CLK,
            mosi: InputSignal::SPI3_D,
            miso: OutputSignal::SPI3_Q,
            cs: InputSignal::SPI3_CS0,
        }
    }
}

/// The data describing a controller.
pub open spec fn spec_info(spi: AnySpi) -> Info {
    match spi {
        AnySpi::Spi2(spi) => spi2_info(spi.spec_chip()),
        AnySpi::Spi3(spi) => spi3_info(spi.spec_chip()),
    }
}

/// SPI peripheral instance.
pub trait Instance: Sized {
    /// The instance as one of all controllers.
    spec fn as_any(&self) -> AnySpi;

    /// Returns the peripheral data describing this SPI instance.
    fn info(&self) -> (info: Info)
        ensures
            info == spec_info(self.as_any()),
    ;

    /// Forgets which controller this is.
    fn into_any(self) -> (spi: AnySpi)
        ensures
            spi == self.as_any(),
    ;
}

impl Instance for SPI2 {
    open spec fn as_any(&self) -> AnySpi {
        AnySpi::Spi2(*self)
    }

    fn info(&self) -> (info: Info) {
        let chip = self.chip();
        let (sclk, mosi, miso, cs) = match chip {
            Chip::Esp32 => (
                InputSignal::HSPICLK,
                InputSignal::HSPID,
                OutputSignal::HSPIQ,
                InputSignal::HSPICS0,
            ),
            _ => (
                InputSignal::FSPICLK,
                InputSignal::FSPID,
                OutputSignal::FSPIQ,
                InputSignal::FSPICS0,
            ),
        };
        Info {
            chip,
            register_block: RegisterBlock::Spi2,
            peripheral: Peripheral::Spi2,
            sclk,
            mosi,
            miso,
            cs,
        }
    }

    fn into_any(self) -> (spi: AnySpi) {
        AnySpi::Spi2(self)
    }
}

impl Instance for SPI3 {
    open spec fn as_any(&self) -> AnySpi {
        AnySpi::Spi3(*self)
    }

    fn info(&self) -> (info: Info) {
        let chip = self.chip();
        let (sclk, mosi, miso, cs) = match chip {
            Chip::Esp32 => (
                InputSignal::VSPICLK,
                InputSignal::VSPID,
                OutputSignal::VSPIQ,
                InputSignal::VSPICS0,
            ),
            _ => (
                InputSignal::SPI3_CLK,
                InputSignal::SPI3_D,
                OutputSignal::SPI3_Q,
                InputSignal::SPI3_CS0,
            ),
        };
        Info {
            chip,
            register_block: RegisterBlock::Spi3,
            peripheral: Peripheral::Spi3,
            sclk,
            mosi,
            miso,
            cs,
        }
    }

    fn into_any(self) -> (spi: AnySpi) {
        AnySpi::Spi3(self)
    }
}

impl Instance for AnySpi {
    open spec fn as_any(&self) -> AnySpi {
        *self
    }

    fn info(&self) -> (info: Info) {
        match self {
            AnySpi::Spi2(spi) => spi.info(),
            AnySpi::Spi3(spi) => spi.info(),
        }
    }

    fn into_any(self) -> (spi: AnySpi) {
        self
    }
}

/// A marker for DMA-capable SPI peripheral instances.
pub trait InstanceDma: Instance + DmaEligible {

}

impl InstanceDma for SPI2 {

}

impl InstanceDma for SPI3 {

}

impl InstanceDma for AnySpi {

}

/// Two descriptions are equal when they are of the same register block.
impl PartialEq for Info {
    fn eq(&self, other: &Info) -> (same: bool) {
        self.register_block == other.register_block
    }
}

impl vstd::std_specs::cmp::PartialEqSpecImpl for Info {
    open spec fn obeys_eq_spec() -> bool {
        true
    }

    open spec fn eq_spec(&self, other: &Info) -> bool {
        self.register_block == other.register_block
    }
}

/// What a transfer's progress is read from.
#[derive(Clone, Copy, Debug, PartialEq, Eq, Structural)]
pub struct BusStatus {
    /// `trans_done` of the slave register.
    pub slave_trans_done: bool,
    /// `trans_done` of the raw DMA interrupt register.
    pub dma_int_raw_trans_done: bool,
}

/// What came of looking at the hardware once.
#[derive(Debug, PartialEq, Eq)]
pub enum Poll<T> {
    /// It is not there yet: look again.
    Pending,
    /// It is there.
    Ready(T),
}

/// A length in bytes as the length registers have it: the number of bits less one, but zero for
/// no bits.
pub open spec fn dlen(len: int) -> int {
    if len == 0 {
        0
    } else {
        8 * len - 1
    }
}

/// The delays of the two data lines that an SPI mode needs on the ESP32.
pub open spec fn delay_fields(mode: Mode) -> Seq<FieldValue> {
    let (miso_mode, mosi_mode, mosi_num): (u32, u32, u32) = match mode {
        Mode::_0 => (0, 2, 2),
        Mode::_1 => (2, 0, 0),
        Mode::_2 => (0, 1, 2),
        Mode::_3 => (1, 0, 0),
    };
    seq![
        bits(Field::MisoDelayMode, miso_mode),
        bits(Field::MisoDelayNum, 0),
        bits(Field::MosiDelayMode, mosi_mode),
        bits(Field::MosiDelayNum, mosi_num),
    ]
}

/// Whether a chip's slave can use DMA in an SPI mode: the ESP32 only in modes 1 and 3.
#[verifier::allow_in_spec]
pub fn mode_supports_dma(chip: Chip, mode: Mode) -> bool
    returns
        (chip == Chip::Esp32 ==> (mode == Mode::_1 || mode == Mode::_3)),
{
    match chip {
        Chip::Esp32 => matches!(mode, Mode::_1 | Mode::_3),
        _ => true,
    }
}

impl Info {
    /// The field that resets the controller's slave logic.
    pub open spec fn reset_field(self) -> Field {
        if self.chip == Chip::Esp32 {
            Field::SyncReset
        } else {
            Field::SoftReset
        }
    }

    /// Resetting the slave logic: its reset bit goes up and comes down again.
    pub open spec fn reset_effects(self) -> Seq<Effect<Seq<FieldValue>>> {
        seq![
            Effect::modify(
                self.register_block,
                Register::Slave,
                seq![set_bit(self.reset_field())],
            ),
            Effect::modify(
                self.register_block,
                Register::Slave,
                seq![clear_bit(self.reset_field())],
            ),
        ]
    }

    /// The fields that make the controller a slave.
    pub open spec fn slave_fields(self) -> Seq<FieldValue> {
        if self.chip == Chip::Esp32 {
            seq![set_bit(Field::SlvWrRdBufEn), set_bit(Field::Mode)]
        } else {
            seq![set_bit(Field::Mode)]
        }
    }

    /// Initialising a controller as a slave on one data line each way.
    pub open spec fn init_effects(self) -> Seq<Effect<Seq<FieldValue>>> {
        seq![
            Effect::write_bits(self.register_block, Register::Clock, 0),
            Effect::write_bits(self.register_block, Register::User, 0),
            Effect::write_bits(self.register_block, Register::Ctrl, 0),
            Effect::write(self.register_block, Register::Slave, self.slave_fields()),
        ] + self.reset_effects() + seq![
            Effect::modify(
                self.register_block,
                Register::User,
                seq![set_bit(Field::Doutdin), clear_bit(Field::Sio)],
            ),
        ] + (if self.chip == Chip::Esp32 {
            seq![]
        } else {
            seq![Effect::write_bits(self.register_block, Register::Misc, 0)]
        })
    }

    /// The register that holds the clock mode, on chips other than the ESP32.
    pub open spec fn clock_mode_register(self) -> Register {
        if self.chip == Chip::Esp32s2 {
            Register::Ctrl1
        } else {
            Register::Slave
        }
    }

    /// Setting up a controller for an SPI mode.
    pub open spec fn data_mode_effects(self, mode: Mode) -> Seq<Effect<Seq<FieldValue>>> {
        let inverted_edge = mode == Mode::_1 || mode == Mode::_2;
        if self.chip == Chip::Esp32 {
            seq![
                Effect::modify(
                    self.register_block,
                    Register::Pin,
                    seq![bit(Field::CkIdleEdge, mode == Mode::_0 || mode == Mode::_1)],
                ),
                Effect::modify(
                    self.register_block,
                    Register::User,
                    seq![bit(Field::CkIEdge, inverted_edge)],
                ),
                Effect::modify(self.register_block, Register::Ctrl2, delay_fields(mode)),
            ]
        } else {
            seq![
                Effect::modify(
                    self.register_block,
                    Register::User,
                    seq![
                        bit(Field::TsckIEdge, inverted_edge),
                        bit(Field::RsckIEdge, inverted_edge),
                    ],
                ),
                Effect::modify(
                    self.register_block,
                    self.clock_mode_register(),
                    seq![bit(Field::ClkMode13, mode == Mode::_1 || mode == Mode::_3)],
                ),
            ]
        }
    }

    /// Telling an ESP32 how much to receive and send, and which data lines to use.
    pub open spec fn length_effects(self, rx_len: int, tx_len: int) -> Seq<
        Effect<Seq<FieldValue>>,
    > {
        seq![
            Effect::write_bits(self.register_block, Register::SlvRdbufDlen, dlen(rx_len) as u32),
            Effect::write_bits(self.register_block, Register::SlvWrbufDlen, dlen(tx_len) as u32),
            Effect::modify(
                self.register_block,
                Register::User,
                seq![bit(Field::UsrMosi, rx_len > 0), bit(Field::UsrMiso, tx_len > 0)],
            ),
        ]
    }

    /// Forgetting that an earlier transfer is done.
    pub open spec fn setup_for_flush_effects(self) -> Seq<Effect<Seq<FieldValue>>> {
        if self.chip.has_pdma() {
            seq![
                Effect::modify(
                    self.register_block,
                    Register::Slave,
                    seq![clear_bit(Field::TransDone)],
                ),
            ]
        } else {
            seq![
                Effect::write(
                    self.register_block,
                    Register::DmaIntClr,
                    seq![clear_bit_by_one(Field::TransDone)],
                ),
            ]
        }
    }

    /// Whether a transfer is still going on: the `trans_done` of the chip is not set.
    pub open spec fn bus_busy(self, status: BusStatus) -> bool {
        if self.chip.has_pdma() {
            !status.slave_trans_done
        } else {
            !status.dma_int_raw_trans_done
        }
    }
}

impl Info {
    /// Returns the register block for this SPI instance.
    pub fn regs(&self) -> (block: &RegisterBlock)
        ensures
            *block == self.register_block,
    {
        &self.register_block
    }

    /// Resets the slave logic.
    pub fn reset_spi(&self, queue: &mut EffectQueue)
        ensures
            final(queue)@ =~~= old(queue)@ + self.reset_effects(),
    {
        let regs = *self.regs();
        match self.chip {
            Chip::Esp32 => {
                queue.modify(regs, Register::Slave, vec![set_bit(Field::SyncReset)]);
                queue.modify(regs, Register::Slave, vec![clear_bit(Field::SyncReset)]);
            },
            _ => {
                queue.modify(regs, Register::Slave, vec![set_bit(Field::SoftReset)]);
                queue.modify(regs, Register::Slave, vec![clear_bit(Field::SoftReset)]);
            },
        }
    }

    /// Tells an ESP32 how much to receive and send, and which data lines to use.
    pub fn prepare_length_and_lines(&self, queue: &mut EffectQueue, rx_len: usize, tx_len: usize)
        requires
            8 * rx_len <= u32::MAX,
            8 * tx_len <= u32::MAX,
        ensures
            final(queue)@ =~~= old(queue)@ + self.length_effects(rx_len as int, tx_len as int),
    {
        let regs = *self.regs();
        queue.write_bits(regs, Register::SlvRdbufDlen, (rx_len as u32 * 8).saturating_sub(1));
        queue.write_bits(regs, Register::SlvWrbufDlen, (tx_len as u32 * 8).saturating_sub(1));

        // SPI Slave mode on ESP32 requires MOSI/MISO enable
        queue.modify(
            regs,
            Register::User,
            vec![bit(Field::UsrMosi, rx_len > 0), bit(Field::UsrMiso, tx_len > 0)],
        );
    }

    /// Initialize for full-duplex 1 bit mode
    pub fn init(&self, queue: &mut EffectQueue)
        ensures
            final(queue)@ =~~= old(queue)@ + self.init_effects(),
    {
        let regs = *self.regs();
        queue.write_bits(regs, Register::Clock, 0);
        queue.write_bits(regs, Register::User, 0);
        queue.write_bits(regs, Register::Ctrl, 0);

        let mut fields: Vec<FieldValue> = Vec::new();
        if self.chip == Chip::Esp32 {
            fields.push(set_bit(Field::SlvWrRdBufEn));
        }
        fields.push(set_bit(Field::Mode));
        assert(fields@ == self.slave_fields());
        queue.write(regs, Register::Slave, fields);
        self.reset_spi(queue);

        queue.modify(
            regs,
            Register::User,
            vec![set_bit(Field::Doutdin), clear_bit(Field::Sio)],
        );

        if self.chip != Chip::Esp32 {
            queue.write_bits(regs, Register::Misc, 0);
        }
    }

    /// Sets the controller up for an SPI mode. With `dma`, it is one in which the chip's slave can
    /// use DMA.
    pub fn set_data_mode(&self, queue: &mut EffectQueue, data_mode: Mode, dma: bool)
        requires
            dma ==> mode_supports_dma(self.chip, data_mode),
        ensures
            final(queue)@ =~~= old(queue)@ + self.data_mode_effects(data_mode),
    {
        let regs = *self.regs();
        match self.chip {
            Chip::Esp32 => {
                queue.modify(
                    regs,
                    Register::Pin,
                    vec![bit(Field::CkIdleEdge, matches!(data_mode, Mode::_0 | Mode::_1))],
                );
                queue.modify(
                    regs,
                    Register::User,
                    vec![bit(Field::CkIEdge, matches!(data_mode, Mode::_1 | Mode::_2))],
                );
                let delays = match data_mode {
                    Mode::_0 => vec![
                        bits(Field::MisoDelayMode, 0),
                        bits(Field::MisoDelayNum, 0),
                        bits(Field::MosiDelayMode, 2),
                        bits(Field::MosiDelayNum, 2),
                    ],
                    Mode::_1 => vec![
                        bits(Field::MisoDelayMode, 2),
                        bits(Field::MisoDelayNum, 0),
                        bits(Field::MosiDelayMode, 0),
                        bits(Field::MosiDelayNum, 0),
                    ],
                    Mode::_2 => vec![
                        bits(Field::MisoDelayMode, 0),
                        bits(Field::MisoDelayNum, 0),
                        bits(Field::MosiDelayMode, 1),
                        bits(Field::MosiDelayNum, 2),
                    ],
                    Mode::_3 => vec![
                        bits(Field::MisoDelayMode, 1),
                        bits(Field::MisoDelayNum, 0),
                        bits(Field::MosiDelayMode, 0),
                        bits(Field::MosiDelayNum, 0),
                    ],
                };
                assert(delays@ == delay_fields(data_mode));
                queue.modify(regs, Register::Ctrl2, delays);
            },
            _ => {
                queue.modify(
                    regs,
                    Register::User,
                    vec![
                        bit(Field::TsckIEdge, matches!(data_mode, Mode::_1 | Mode::_2)),
                        bit(Field::RsckIEdge, matches!(data_mode, Mode::_1 | Mode::_2)),
                    ],
                );
                let ctrl1_reg = match self.chip {
                    Chip::Esp32s2 => Register::Ctrl1,
                    _ => Register::Slave,
                };
                queue.modify(
                    regs,
                    ctrl1_reg,
                    vec![bit(Field::ClkMode13, matches!(data_mode, Mode::_1 | Mode::_3))],
                );
            },
        }
    }

    /// Whether a transfer is still going on.
    pub fn is_bus_busy(&self, status: &BusStatus) -> (busy: bool)
        ensures
            busy == self.bus_busy(*status),
    {
        if self.chip.has_pdma() {
            !status.slave_trans_done
        } else {
            !status.dma_int_raw_trans_done
        }
    }

    /// Checks once if the bus is busy: waiting for it to be idle is doing this until it is ready.
    pub fn flush(&self, status: &BusStatus) -> (poll: Poll<Result<(), Error>>)
        ensures
            self.bus_busy(*status) ==> poll == Poll::<Result<(), Error>>::Pending,
            !self.bus_busy(*status) ==> poll == Poll::Ready(Ok::<(), Error>(())),
    {
        if self.is_bus_busy(status) {
            Poll::Pending
        } else {
            Poll::Ready(Ok(()))
        }
    }

    /// Clears the transaction-done interrupt flag so flush() can work properly.
    pub fn setup_for_flush(&self, queue: &mut EffectQueue)
        ensures
            final(queue)@ =~~= old(queue)@ + self.setup_for_flush_effects(),
    {
        let regs = *self.regs();
        if self.chip.has_pdma() {
            queue.modify(regs, Register::Slave, vec![clear_bit(Field::TransDone)]);
        } else {
            queue.write(regs, Register::DmaIntClr, vec![clear_bit_by_one(Field::TransDone)]);
        }
    }
}

} // verus!
