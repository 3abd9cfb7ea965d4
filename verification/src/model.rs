//! What the driver's effects amount to: a model of the hardware that they act on.

use crate::dma::{DmaPeripheral, PeripheralDmaChannel};
use crate::effect::Effect;
use crate::gpio::{InputSignal, OutputSignal, Pin};
use crate::info::{BusStatus, Info};
use crate::register::{Access, Field, FieldValue, Register, RegisterBlock};
use crate::system::Peripheral;
use vstd::prelude::*;

verus! {

/// How a chip lays its registers out.
pub struct Layout {
    /// What each field is after a reset of the chip.
    pub reset: spec_fn(Register, Field) -> u32,
    /// What each field is when the whole register is a given number.
    pub decode: spec_fn(Register, Field, u32) -> u32,
}

impl Layout {
    /// In a register that is zero, every field is zero.
    pub open spec fn zero_is_zero(self) -> bool {
        forall|register: Register, field: Field|
            #![trigger (self.decode)(register, field, 0)]
            (self.decode)(register, field, 0) == 0
    }
}

/// The state of the hardware, as far as the driver changes it.
pub struct Machine {
    /// The fields of the registers.
    pub fields: spec_fn(RegisterBlock, Register, Field) -> u32,
    /// The pin that each input signal comes from.
    pub inputs: spec_fn(InputSignal) -> Pin,
    /// The pin that each output signal goes to.
    pub outputs: spec_fn(OutputSignal) -> Pin,
    /// Whether the input stage of each pin is on.
    pub input_on: spec_fn(Pin) -> bool,
    /// Whether each pin is a push-pull output.
    pub push_pull: spec_fn(Pin) -> bool,
    /// The number of guards on each peripheral.
    pub guards: spec_fn(Peripheral) -> int,
}

/// What a list of fields says of one of them: the last number given for it.
pub open spec fn last_value(fields: Seq<FieldValue>, field: Field) -> Option<u32>
    decreases fields.len(),
{
    if fields.len() == 0 {
        None
    } else if fields.last().field == field {
        Some(fields.last().bits)
    } else {
        last_value(fields.drop_last(), field)
    }
}

impl Access<Seq<FieldValue>> {
    /// The register that is written.
    pub open spec fn register(self) -> Register {
        match self {
            Access::WriteBits { register, .. } => register,
            Access::Write { register, .. } => register,
            Access::Modify { register, .. } => register,
        }
    }

    /// What is written to a field of that register when it holds `current`.
    pub open spec fn written(self, layout: Layout, field: Field, current: u32) -> u32 {
        match self {
            Access::WriteBits { register, bits } => (layout.decode)(register, field, bits),
            Access::Write { register, fields } => match last_value(fields, field) {
                Some(bits) => bits,
                None => (layout.reset)(register, field),
            },
            Access::Modify { register, fields } => match last_value(fields, field) {
                Some(bits) => bits,
                None => current,
            },
        }
    }
}

impl Machine {
    /// A field of a register.
    pub open spec fn field(self, block: RegisterBlock, register: Register, field: Field) -> u32 {
        (self.fields)(block, register, field)
    }

    /// A field after an access to a register of its block. A register holds what was written to
    /// it. Besides, a one in the interrupt clear register takes the same interrupt out of the raw
    /// interrupt register.
    pub open spec fn field_after(
        self,
        layout: Layout,
        block: RegisterBlock,
        access: Access<Seq<FieldValue>>,
        register: Register,
        field: Field,
    ) -> u32 {
        let written = access.written(layout, field, self.field(block, access.register(), field));
        if register == access.register() {
            written
        } else if register == Register::DmaIntRaw && access.register() == Register::DmaIntClr
            && written == 1 {
            0
        } else {
            self.field(block, register, field)
        }
    }

    /// The hardware after one effect.
    pub open spec fn step(self, layout: Layout, effect: Effect<Seq<FieldValue>>) -> Machine {
        match effect {
            Effect::AcquireGuard(peripheral) => Machine {
                guards: |p: Peripheral| (self.guards)(p) + (if p == peripheral { 1int } else { 0 }),
                ..self
            },
            Effect::ReleaseGuard(peripheral) => Machine {
                guards: |p: Peripheral| (self.guards)(p) - (if p == peripheral { 1int } else { 0 }),
                ..self
            },
            Effect::Register(block, access) => Machine {
                fields: |b: RegisterBlock, r: Register, f: Field|
                    if b == block {
                        self.field_after(layout, block, access, r, f)
                    } else {
                        self.field(b, r, f)
                    },
                ..self
            },
            Effect::EnableInput { pin, enable } => Machine {
                input_on: |p: Pin| if p == pin { enable } else { (self.input_on)(p) },
                ..self
            },
            Effect::SetToPushPullOutput { pin } => Machine {
                push_pull: |p: Pin| if p == pin { true } else { (self.push_pull)(p) },
                ..self
            },
            Effect::ConnectInput { signal, pin } => Machine {
                inputs: |s: InputSignal| if s == signal { pin } else { (self.inputs)(s) },
                ..self
            },
            Effect::ConnectOutput { signal, pin } => Machine {
                outputs: |s: OutputSignal| if s == signal { pin } else { (self.outputs)(s) },
                ..self
            },
            _ => self,
        }
    }

    /// The hardware after some effects, one after the other.
    pub open spec fn run(self, layout: Layout, effects: Seq<Effect<Seq<FieldValue>>>) -> Machine
        decreases effects.len(),
    {
        if effects.len() == 0 {
            self
        } else {
            self.run(layout, effects.drop_last()).step(layout, effects.last())
        }
    }

    /// What the driver reads of a transfer's progress.
    pub open spec fn bus_status(self, block: RegisterBlock) -> BusStatus {
        BusStatus {
            slave_trans_done: self.field(block, Register::Slave, Field::TransDone) != 0,
            dma_int_raw_trans_done: self.field(block, Register::DmaIntRaw, Field::TransDone) != 0,
        }
    }
}

/// What came to some effects.
pub open spec fn added(
    before: Seq<Effect<Seq<FieldValue>>>,
    after: Seq<Effect<Seq<FieldValue>>>,
) -> Seq<Effect<Seq<FieldValue>>> {
    after.skip(before.len() as int)
}

/// What comes behind some effects is what came to them.
pub proof fn added_behind(
    before: Seq<Effect<Seq<FieldValue>>>,
    more: Seq<Effect<Seq<FieldValue>>>,
)
    ensures
        added(before, before + more) == more,
        before.is_prefix_of(before + more),
{
    assert((before + more).skip(before.len() as int) =~= more);
}

/// What is carried out of some effects when the DMA engine confirms those channels that pass: all
/// of them, or those up to the first check that fails.
pub open spec fn carried_out(
    effects: Seq<Effect<Seq<FieldValue>>>,
    passes: spec_fn(PeripheralDmaChannel, DmaPeripheral) -> bool,
) -> Seq<Effect<Seq<FieldValue>>>
    decreases effects.len(),
{
    if effects.len() == 0 {
        seq![]
    } else {
        match effects.first() {
            Effect::EnsureCompatible { channel, peripheral } if !passes(channel, peripheral) => {
                seq![effects.first()]
            },
            _ => seq![effects.first()] + carried_out(effects.drop_first(), passes),
        }
    }
}

/// Running effects one after the other is running them in two parts.
pub broadcast proof fn run_add(
    machine: Machine,
    layout: Layout,
    first: Seq<Effect<Seq<FieldValue>>>,
    second: Seq<Effect<Seq<FieldValue>>>,
)
    ensures
        #[trigger] machine.run(layout, first + second) == machine.run(layout, first).run(
            layout,
            second,
        ),
    decreases second.len(),
{
    if second.len() == 0 {
        assert(first + second =~= first);
    } else {
        run_add(machine, layout, first, second.drop_last());
        assert((first + second).drop_last() =~= first + second.drop_last());
    }
}

/// Whether some effects are accesses to the registers of one block and requests to the DMA engine.
pub open spec fn stays_in(effects: Seq<Effect<Seq<FieldValue>>>, block: RegisterBlock) -> bool {
    forall|i: int|
        0 <= i < effects.len() ==> (#[trigger] effects[i] is Dma || (effects[i] is Register
            && effects[i]->Register_0 == block))
}

/// Whether some effects are accesses to the registers of one block, and nothing else.
pub open spec fn only_registers(
    effects: Seq<Effect<Seq<FieldValue>>>,
    block: RegisterBlock,
) -> bool {
    forall|i: int|
        0 <= i < effects.len() ==> #[trigger] effects[i] is Register && effects[i]->Register_0
            == block
}

/// Whether some effects act on pins, and on nothing else.
pub open spec fn only_pins(effects: Seq<Effect<Seq<FieldValue>>>) -> bool {
    forall|i: int|
        0 <= i < effects.len() ==> {
            ||| #[trigger] effects[i] is EnableInput
            ||| effects[i] is SetToPushPullOutput
            ||| effects[i] is ConnectInput
            ||| effects[i] is ConnectOutput
        }
}

/// Whether there is no register access among some effects.
pub open spec fn no_registers(effects: Seq<Effect<Seq<FieldValue>>>) -> bool {
    forall|i: int| 0 <= i < effects.len() ==> !(#[trigger] effects[i] is Register)
}

/// Accesses to one block, and requests to the DMA engine, change its registers and nothing else.
pub proof fn run_stays_in(
    machine: Machine,
    layout: Layout,
    effects: Seq<Effect<Seq<FieldValue>>>,
    block: RegisterBlock,
)
    requires
        stays_in(effects, block),
    ensures
        machine.run(layout, effects) == (Machine {
            fields: machine.run(layout, effects).fields,
            ..machine
        }),
        forall|b: RegisterBlock, r: Register, f: Field|
            b != block ==> #[trigger] machine.run(layout, effects).field(b, r, f) == machine.field(
                b,
                r,
                f,
            ),
    decreases effects.len(),
{
    if effects.len() > 0 {
        assert(effects.last() == effects[effects.len() - 1]);
        run_stays_in(machine, layout, effects.drop_last(), block);
    }
}

/// Other effects leave the registers alone.
pub proof fn run_no_registers(
    machine: Machine,
    layout: Layout,
    effects: Seq<Effect<Seq<FieldValue>>>,
)
    requires
        no_registers(effects),
    ensures
        machine.run(layout, effects).fields == machine.fields,
    decreases effects.len(),
{
    if effects.len() > 0 {
        assert(effects.last() == effects[effects.len() - 1]);
        run_no_registers(machine, layout, effects.drop_last());
    }
}

/// Whether an effect can change a field.
pub open spec fn touches(
    effect: Effect<Seq<FieldValue>>,
    block: RegisterBlock,
    register: Register,
    field: Field,
) -> bool {
    match effect {
        Effect::Register(b, access) => b == block && {
            ||| access.register() == register && !(access is Modify && last_value(
                access->Modify_fields,
                field,
            ) is None)
            ||| register == Register::DmaIntRaw && access.register() == Register::DmaIntClr
        },
        _ => false,
    }
}

/// A field that no effect touches stays as it is.
pub proof fn run_untouched(
    machine: Machine,
    layout: Layout,
    effects: Seq<Effect<Seq<FieldValue>>>,
    block: RegisterBlock,
    register: Register,
    field: Field,
)
    requires
        forall|i: int|
            0 <= i < effects.len() ==> !touches(#[trigger] effects[i], block, register, field),
    ensures
        machine.run(layout, effects).field(block, register, field) == machine.field(
            block,
            register,
            field,
        ),
    decreases effects.len(),
{
    if effects.len() > 0 {
        assert(effects.last() == effects[effects.len() - 1]);
        run_untouched(machine, layout, effects.drop_last(), block, register, field);
    }
}

} // verus!
