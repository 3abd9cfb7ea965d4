//! The register accesses of the driver, access by access.

use spi_slave::chip::Chip;
use spi_slave::effect::{Effect, EffectQueue};
use spi_slave::info::{mode_supports_dma, BusStatus, Info, Instance, Poll};
use spi_slave::register::{
    bit, bits, clear_bit, clear_bit_by_one, set_bit, Access, Field, FieldValue, Register,
    RegisterBlock,
};
use spi_slave::slave::start::DmaDriver;
use spi_slave::spi::{AnySpi, DmaEligible, Mode, SPI2, SPI3};

type Done = Vec<Effect<Vec<FieldValue>>>;

const CHIPS: [Chip; 7] = [
    Chip::Esp32,
    Chip::Esp32s2,
    Chip::Esp32s3,
    Chip::Esp32c2,
    Chip::Esp32c3,
    Chip::Esp32c6,
    Chip::Esp32h2,
];

fn modify(register: Register, fields: Vec<FieldValue>) -> Effect<Vec<FieldValue>> {
    Effect::Register(RegisterBlock::Spi2, Access::Modify { register, fields })
}

fn write(register: Register, fields: Vec<FieldValue>) -> Effect<Vec<FieldValue>> {
    Effect::Register(RegisterBlock::Spi2, Access::Write { register, fields })
}

fn write_bits(register: Register, bits: u32) -> Effect<Vec<FieldValue>> {
    Effect::Register(RegisterBlock::Spi2, Access::WriteBits { register, bits })
}

fn info(chip: Chip) -> Info {
    SPI2::new(chip).info()
}

fn driver(chip: Chip) -> DmaDriver {
    let spi = SPI2::new(chip);
    DmaDriver { info: spi.info(), dma_peripheral: spi.dma_peripheral() }
}

fn done(work: impl Fn(&mut EffectQueue)) -> Done {
    let mut queue = EffectQueue::new();
    work(&mut queue);
    queue.take()
}

#[test]
fn field_values() {
    assert_eq!(bits(Field::MosiDelayNum, 5), FieldValue { field: Field::MosiDelayNum, bits: 5 });
    assert_eq!(bit(Field::Usr, true), FieldValue { field: Field::Usr, bits: 1 });
    assert_eq!(bit(Field::Usr, false), FieldValue { field: Field::Usr, bits: 0 });
    assert_eq!(set_bit(Field::Sio), FieldValue { field: Field::Sio, bits: 1 });
    assert_eq!(clear_bit(Field::Sio), FieldValue { field: Field::Sio, bits: 0 });
    assert_eq!(clear_bit_by_one(Field::InDone), FieldValue { field: Field::InDone, bits: 1 });
}

#[test]
fn chips_have_one_kind_of_dma() {
    for chip in CHIPS {
        assert_eq!(chip.has_pdma(), matches!(chip, Chip::Esp32 | Chip::Esp32s2));
        assert_eq!(chip.has_gdma(), !chip.has_pdma());
        assert_eq!(
            chip.has_spi3(),
            matches!(chip, Chip::Esp32 | Chip::Esp32s2 | Chip::Esp32s3)
        );
        assert_eq!(SPI3::new(chip).is_some(), chip.has_spi3());
    }
}

#[test]
fn queue_keeps_order_and_is_emptied() {
    let mut queue = EffectQueue::new();
    info(Chip::Esp32c3).reset_spi(&mut queue);
    info(Chip::Esp32c3).setup_for_flush(&mut queue);
    let first = queue.take();
    assert_eq!(
        first,
        vec![
            modify(Register::Slave, vec![set_bit(Field::SoftReset)]),
            modify(Register::Slave, vec![clear_bit(Field::SoftReset)]),
            write(Register::DmaIntClr, vec![clear_bit_by_one(Field::TransDone)]),
        ]
    );
    assert_eq!(queue.take(), vec![]);
}

#[test]
fn regs_is_the_block_of_the_instance() {
    assert_eq!(*info(Chip::Esp32h2).regs(), RegisterBlock::Spi2);
    assert_eq!(*SPI3::new(Chip::Esp32).unwrap().info().regs(), RegisterBlock::Spi3);
    assert_eq!(*driver(Chip::Esp32).regs(), RegisterBlock::Spi2);
}

#[test]
fn infos_are_equal_by_register_block() {
    let two = SPI2::new(Chip::Esp32s3).info();
    let three = SPI3::new(Chip::Esp32s3).unwrap().info();
    assert!(two == AnySpi::Spi2(SPI2::new(Chip::Esp32s3)).info());
    assert!(two != three);
    assert!(three == three.clone());
}

#[test]
fn reset_pulses_the_bit_of_the_chip() {
    for chip in CHIPS {
        let field = if chip == Chip::Esp32 { Field::SyncReset } else { Field::SoftReset };
        assert_eq!(
            done(|queue| info(chip).reset_spi(queue)),
            vec![
                modify(Register::Slave, vec![set_bit(field)]),
                modify(Register::Slave, vec![clear_bit(field)]),
            ]
        );
    }
}

#[test]
fn init_on_esp32() {
    assert_eq!(
        done(|queue| info(Chip::Esp32).init(queue)),
        vec![
            write_bits(Register::Clock, 0),
            write_bits(Register::User, 0),
            write_bits(Register::Ctrl, 0),
            write(Register::Slave, vec![set_bit(Field::SlvWrRdBufEn), set_bit(Field::Mode)]),
            modify(Register::Slave, vec![set_bit(Field::SyncReset)]),
            modify(Register::Slave, vec![clear_bit(Field::SyncReset)]),
            modify(Register::User, vec![set_bit(Field::Doutdin), clear_bit(Field::Sio)]),
        ]
    );
}

#[test]
fn init_elsewhere() {
    for chip in CHIPS {
        if chip != Chip::Esp32 {
            assert_eq!(
                done(|queue| info(chip).init(queue)),
                vec![
                    write_bits(Register::Clock, 0),
                    write_bits(Register::User, 0),
                    write_bits(Register::Ctrl, 0),
                    write(Register::Slave, vec![set_bit(Field::Mode)]),
                    modify(Register::Slave, vec![set_bit(Field::SoftReset)]),
                    modify(Register::Slave, vec![clear_bit(Field::SoftReset)]),
                    modify(Register::User, vec![set_bit(Field::Doutdin), clear_bit(Field::Sio)]),
                    write_bits(Register::Misc, 0),
                ]
            );
        }
    }
}

#[test]
fn data_mode_on_esp32() {
    let table = [
        (Mode::_0, true, false, [0, 0, 2, 2]),
        (Mode::_1, true, true, [2, 0, 0, 0]),
        (Mode::_2, false, true, [0, 0, 1, 2]),
        (Mode::_3, false, false, [1, 0, 0, 0]),
    ];
    for (mode, idle, edge, delays) in table {
        assert_eq!(
            done(|queue| info(Chip::Esp32).set_data_mode(queue, mode, false)),
            vec![
                modify(Register::Pin, vec![bit(Field::CkIdleEdge, idle)]),
                modify(Register::User, vec![bit(Field::CkIEdge, edge)]),
                modify(
                    Register::Ctrl2,
                    vec![
                        bits(Field::MisoDelayMode, delays[0]),
                        bits(Field::MisoDelayNum, delays[1]),
                        bits(Field::MosiDelayMode, delays[2]),
                        bits(Field::MosiDelayNum, delays[3]),
                    ],
                ),
            ]
        );
    }
}

#[test]
fn data_mode_elsewhere() {
    let table = [
        (Mode::_0, false, false),
        (Mode::_1, true, true),
        (Mode::_2, true, false),
        (Mode::_3, false, true),
    ];
    for chip in CHIPS {
        if chip != Chip::Esp32 {
            let register = if chip == Chip::Esp32s2 { Register::Ctrl1 } else { Register::Slave };
            for (mode, edge, clk_mode_13) in table {
                for dma in [false, true] {
                    assert_eq!(
                        done(|queue| info(chip).set_data_mode(queue, mode, dma)),
                        vec![
                            modify(
                                Register::User,
                                vec![bit(Field::TsckIEdge, edge), bit(Field::RsckIEdge, edge)],
                            ),
                            modify(register, vec![bit(Field::ClkMode13, clk_mode_13)]),
                        ]
                    );
                }
            }
        }
    }
}

#[test]
fn esp32_has_dma_in_modes_one_and_three() {
    for chip in CHIPS {
        assert_eq!(mode_supports_dma(chip, Mode::_0), chip != Chip::Esp32);
        assert!(mode_supports_dma(chip, Mode::_1));
        assert_eq!(mode_supports_dma(chip, Mode::_2), chip != Chip::Esp32);
        assert!(mode_supports_dma(chip, Mode::_3));
    }
    let with = done(|queue| info(Chip::Esp32).set_data_mode(queue, Mode::_3, true));
    let without = done(|queue| info(Chip::Esp32).set_data_mode(queue, Mode::_3, false));
    assert_eq!(with, without);
}

#[test]
fn lengths_are_bits_less_one() {
    assert_eq!(
        done(|queue| info(Chip::Esp32).prepare_length_and_lines(queue, 32736, 0)),
        vec![
            write_bits(Register::SlvRdbufDlen, 261887),
            write_bits(Register::SlvWrbufDlen, 0),
            modify(
                Register::User,
                vec![bit(Field::UsrMosi, true), bit(Field::UsrMiso, false)],
            ),
        ]
    );
    assert_eq!(
        done(|queue| info(Chip::Esp32).prepare_length_and_lines(queue, 0, 1)),
        vec![
            write_bits(Register::SlvRdbufDlen, 0),
            write_bits(Register::SlvWrbufDlen, 7),
            modify(
                Register::User,
                vec![bit(Field::UsrMosi, false), bit(Field::UsrMiso, true)],
            ),
        ]
    );
}

#[test]
fn longest_length_that_fits() {
    let longest = 0x1fff_ffff;
    let effects = done(|queue| info(Chip::Esp32).prepare_length_and_lines(queue, longest, longest));
    assert_eq!(effects[0], write_bits(Register::SlvRdbufDlen, 0xffff_fff7));
    assert_eq!(effects[1], write_bits(Register::SlvWrbufDlen, 0xffff_fff7));
}

#[test]
fn enable_dma_where_the_engine_is_shared() {
    for chip in CHIPS {
        if chip.has_gdma() {
            assert_eq!(
                done(|queue| driver(chip).enable_dma(queue)),
                vec![modify(
                    Register::DmaConf,
                    vec![
                        set_bit(Field::DmaTxEna),
                        set_bit(Field::DmaRxEna),
                        clear_bit(Field::RxEofEn),
                    ],
                )]
            );
            assert_eq!(
                done(|queue| driver(chip).reset_dma_before_usr_cmd(queue)),
                vec![modify(
                    Register::DmaConf,
                    vec![
                        set_bit(Field::RxAfifoRst),
                        set_bit(Field::BufAfifoRst),
                        set_bit(Field::DmaAfifoRst),
                    ],
                )]
            );
        }
    }
}

fn rst(set: bool) -> Effect<Vec<FieldValue>> {
    modify(
        Register::DmaConf,
        vec![
            bit(Field::InRst, set),
            bit(Field::OutRst, set),
            bit(Field::AhbmFifoRst, set),
            bit(Field::AhbmRst, set),
        ],
    )
}

#[test]
fn enable_dma_on_esp32_and_esp32s2() {
    assert_eq!(
        done(|queue| driver(Chip::Esp32).enable_dma(queue)),
        vec![rst(true), rst(false)]
    );
    assert_eq!(
        done(|queue| driver(Chip::Esp32s2).enable_dma(queue)),
        vec![
            rst(true),
            modify(Register::DmaConf, vec![bit(Field::DmaInfifoFullClr, true)]),
            rst(false),
            modify(Register::DmaConf, vec![bit(Field::DmaInfifoFullClr, false)]),
        ]
    );
    assert_eq!(done(|queue| driver(Chip::Esp32).reset_dma_before_usr_cmd(queue)), vec![]);
    assert_eq!(done(|queue| driver(Chip::Esp32s2).reset_dma_before_usr_cmd(queue)), vec![]);
}

#[test]
fn interrupts_are_cleared_by_one() {
    let shared = [
        Field::DmaInfifoFullErr,
        Field::DmaOutfifoEmptyErr,
        Field::TransDone,
        Field::MstRxAfifoWfullErr,
        Field::MstTxAfifoRemptyErr,
    ];
    let own = [
        Field::InlinkDscrEmpty,
        Field::OutlinkDscrError,
        Field::InlinkDscrError,
        Field::InDone,
        Field::InErrEof,
        Field::InSucEof,
        Field::OutDone,
        Field::OutEof,
        Field::OutTotalEof,
    ];
    for chip in CHIPS {
        let fields: Vec<FieldValue> = if chip.has_gdma() {
            shared.iter().map(|f| clear_bit_by_one(*f)).collect()
        } else {
            own.iter().map(|f| clear_bit_by_one(*f)).collect()
        };
        assert_eq!(
            done(|queue| driver(chip).clear_dma_interrupts(queue)),
            vec![write(Register::DmaIntClr, fields)]
        );
    }
}

#[test]
fn flag_for_flush_is_cleared() {
    for chip in CHIPS {
        let expected = if chip.has_pdma() {
            modify(Register::Slave, vec![clear_bit(Field::TransDone)])
        } else {
            write(Register::DmaIntClr, vec![clear_bit_by_one(Field::TransDone)])
        };
        assert_eq!(done(|queue| info(chip).setup_for_flush(queue)), vec![expected]);
    }
}

#[test]
fn bus_is_busy_until_the_flag_of_the_chip_is_set() {
    for chip in CHIPS {
        for slave in [false, true] {
            for raw in [false, true] {
                let status = BusStatus { slave_trans_done: slave, dma_int_raw_trans_done: raw };
                let busy = if chip.has_pdma() { !slave } else { !raw };
                assert_eq!(info(chip).is_bus_busy(&status), busy);
                if busy {
                    assert_eq!(info(chip).flush(&status), Poll::Pending);
                } else {
                    assert_eq!(info(chip).flush(&status), Poll::Ready(Ok(())));
                }
            }
        }
    }
}
