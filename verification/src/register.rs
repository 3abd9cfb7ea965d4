//! The registers of an SPI controller, and the accesses made to them.

use vstd::prelude::*;

verus! {

/// The register block of one SPI controller.
#[derive(Clone, Copy, Debug, PartialEq, Eq, Structural)]
pub enum RegisterBlock {
    Spi2,
    Spi3,
}

/// A register of an SPI controller.
#[derive(Clone, Copy, Debug, PartialEq, Eq, Structural)]
pub enum Register {
    Clock,
    Cmd,
    Ctrl,
    Ctrl1,
    Ctrl2,
    DmaConf,
    DmaIntClr,
    DmaIntRaw,
    Misc,
    Pin,
    Slave,
    SlvRdbufDlen,
    SlvWrbufDlen,
    User,
}

/// A field of a register. One name may occur in several registers.
#[derive(Clone, Copy, Debug, PartialEq, Eq, Structural)]
pub enum Field {
    AhbmFifoRst,
    AhbmRst,
    BufAfifoRst,
    CkIEdge,
    CkIdleEdge,
    ClkMode13,
    DmaAfifoRst,
    DmaInfifoFullClr,
    DmaInfifoFullErr,
    DmaOutfifoEmptyErr,
    DmaRxEna,
    DmaSlvSegTransEn,
    DmaTxEna,
    Doutdin,
    InDone,
    InErrEof,
    InRst,
    InSucEof,
    InlinkDscrEmpty,
    InlinkDscrError,
    MisoDelayMode,
    MisoDelayNum,
    Mode,
    MosiDelayMode,
    MosiDelayNum,
    MstRxAfifoWfullErr,
    MstTxAfifoRemptyErr,
    OutDone,
    OutEof,
    OutRst,
    OutTotalEof,
    OutlinkDscrError,
    RsckIEdge,
    RxAfifoRst,
    RxEofEn,
    Sio,
    SlvWrRdBufEn,
    SoftReset,
    SyncReset,
    TransDone,
    TsckIEdge,
    Usr,
    UsrMiso,
    UsrMosi,
}

/// A field together with the number to put into it.
#[derive(Clone, Copy, Debug, PartialEq, Eq, Structural)]
pub struct FieldValue {
    pub field: Field,
    pub bits: u32,
}

/// A number for a field of any width.
#[verifier::allow_in_spec]
pub fn bits(field: Field, bits: u32) -> FieldValue
    returns
        (FieldValue { field, bits }),
{
    FieldValue { field, bits }
}

/// A one-bit field, set or cleared by `set`.
#[verifier::allow_in_spec]
pub fn bit(field: Field, set: bool) -> FieldValue
    returns
        (FieldValue { field, bits: if set { 1 } else { 0 } }),
{
    FieldValue { field, bits: if set { 1 } else { 0 } }
}

/// A one-bit field, set.
#[verifier::allow_in_spec]
pub fn set_bit(field: Field) -> FieldValue
    returns
        (FieldValue { field, bits: 1 }),
{
    FieldValue { field, bits: 1 }
}

/// A one-bit field, cleared.
#[verifier::allow_in_spec]
pub fn clear_bit(field: Field) -> FieldValue
    returns
        (FieldValue { field, bits: 0 }),
{
    FieldValue { field, bits: 0 }
}

/// A one-bit field that stands for another bit, which is cleared by writing one.
#[verifier::allow_in_spec]
pub fn clear_bit_by_one(field: Field) -> FieldValue
    returns
        (FieldValue { field, bits: 1 }),
{
    FieldValue { field, bits: 1 }
}

/// One write access to a register. `F` is a list of fields: a `Vec` in executable code, a
/// `Seq` in specifications.
#[verifier::ext_equal]
#[derive(Debug, PartialEq, Eq)]
pub enum Access<F> {
    /// The whole register is written with `bits`.
    WriteBits { register: Register, bits: u32 },
    /// The register is written with its reset value, except for `fields`.
    Write { register: Register, fields: F },
    /// The register is written with the value it holds, except for `fields`.
    Modify { register: Register, fields: F },
}

impl View for Access<Vec<FieldValue>> {
    type V = Access<Seq<FieldValue>>;

    open spec fn view(&self) -> Access<Seq<FieldValue>> {
        match *self {
            Access::WriteBits { register, bits } => Access::WriteBits { register, bits },
            Access::Write { register, fields } => Access::Write { register, fields: fields@ },
            Access::Modify { register, fields } => Access::Modify { register, fields: fields@ },
        }
    }
}

} // verus!
