//! The instruction set: nine machine-op encoding shapes plus three
//! pseudo-operations, and the bit-exact packing of resolved instructions
//! into 16-bit machine words.

use vstd::prelude::*;

verus! {

/// A 16-bit machine word.
pub type MachineCode = u16;

/// A 16-bit machine address.
pub type MachineAddress = u16;

/// An address operand: either fully resolved, or a symbolic label reference
/// plus a signed offset, to be rewritten by symbol resolution.
#[derive(Debug, PartialEq, Eq, Hash)]
pub enum Address {
    Constant(MachineAddress),
    Unresolved { symbol_name: String, offset: i16 },
}

impl Clone for Address {
    fn clone(&self) -> (res: Self)
        ensures
            res == *self,
    {
        match self {
            Address::Constant(c) => Address::Constant(*c),
            Address::Unresolved { symbol_name, offset } => Address::Unresolved {
                symbol_name: symbol_name.clone(),
                offset: *offset,
            },
        }
    }
}

/// One of the machine's four general registers.
#[derive(Clone, Copy, Debug, PartialEq, Eq, Hash, Structural)]
pub enum Register {
    Zero,
    One,
    Two,
    Three,
}

impl Register {
    /// The register's 2-bit field value.
    pub open spec fn spec_code(self) -> MachineCode {
        match self {
            Register::Zero => 0,
            Register::One => 1,
            Register::Two => 2,
            Register::Three => 3,
        }
    }

    pub fn code(&self) -> (c: MachineCode)
        ensures
            c == self.spec_code(),
    {
        match self {
            Register::Zero => 0,
            Register::One => 1,
            Register::Two => 2,
            Register::Three => 3,
        }
    }
}

/// Arithmetic/logic operations: 4-bit operation code, two registers and an
/// 8-bit constant.
#[derive(Clone, Copy, Debug, PartialEq, Eq, Hash, Structural)]
pub enum Opecode1 {
    Add,
    Sub,
    And,
    Or,
    Xor,
    Mult,
    Div,
    Cmp,
    Ex,
}

impl Opecode1 {
    /// The 4-bit operation code (bits 15-12).
    pub open spec fn spec_code(self) -> MachineCode {
        match self {
            Opecode1::Add => 0x0,
            Opecode1::Sub => 0x1,
            Opecode1::And => 0x2,
            Opecode1::Or => 0x3,
            Opecode1::Xor => 0x4,
            Opecode1::Mult => 0x6,
            Opecode1::Div => 0x7,
            Opecode1::Cmp => 0x8,
            Opecode1::Ex => 0xF,
        }
    }

    pub fn code(&self) -> (c: MachineCode)
        ensures
            c == self.spec_code(),
    {
        match self {
            Opecode1::Add => 0x0,
            Opecode1::Sub => 0x1,
            Opecode1::And => 0x2,
            Opecode1::Or => 0x3,
            Opecode1::Xor => 0x4,
            Opecode1::Mult => 0x6,
            Opecode1::Div => 0x7,
            Opecode1::Cmp => 0x8,
            Opecode1::Ex => 0xF,
        }
    }
}

/// Load-constant and stack operations: 6-bit operation code, one register
/// and an 8-bit unsigned constant.
#[derive(Clone, Copy, Debug, PartialEq, Eq, Hash, Structural)]
pub enum Opecode2 {
    Lc,
    Push,
    Pop,
}

impl Opecode2 {
    /// The 6-bit operation code (bits 15-10).
    pub open spec fn spec_code(self) -> MachineCode {
        match self {
            Opecode2::Lc => 0x27,
            Opecode2::Push => 0x34,
            Opecode2::Pop => 0x35,
        }
    }

    pub fn code(&self) -> (c: MachineCode)
        ensures
            c == self.spec_code(),
    {
        match self {
            Opecode2::Lc => 0x27,
            Opecode2::Push => 0x34,
            Opecode2::Pop => 0x35,
        }
    }
}

/// Shift and index operations: 6-bit operation code, one register and an
/// 8-bit signed constant.
#[derive(Clone, Copy, Debug, PartialEq, Eq, Hash, Structural)]
pub enum Opecode3 {
    Sl,
    Sa,
    Sc,
    Bix,
}

impl Opecode3 {
    /// The 6-bit operation code (bits 15-10).
    pub open spec fn spec_code(self) -> MachineCode {
        match self {
            Opecode3::Sl => 0x14,
            Opecode3::Sa => 0x15,
            Opecode3::Sc => 0x16,
            Opecode3::Bix => 0x36,
        }
    }

    pub fn code(&self) -> (c: MachineCode)
        ensures
            c == self.spec_code(),
    {
        match self {
            Opecode3::Sl => 0x14,
            Opecode3::Sa => 0x15,
            Opecode3::Sc => 0x16,
            Opecode3::Bix => 0x36,
        }
    }
}

/// Indexed load/store operations: 4-bit operation code, two registers and an
/// 8-bit signed constant.
#[derive(Clone, Copy, Debug, PartialEq, Eq, Hash, Structural)]
pub enum Opecode4 {
    Lea,
    Lx,
    Stx,
}

impl Opecode4 {
    /// The 4-bit operation code (bits 15-12).
    pub open spec fn spec_code(self) -> MachineCode {
        match self {
            Opecode4::Lea => 0xA,
            Opecode4::Lx => 0xB,
            Opecode4::Stx => 0xC,
        }
    }

    pub fn code(&self) -> (c: MachineCode)
        ensures
            c == self.spec_code(),
    {
        match self {
            Opecode4::Lea => 0xA,
            Opecode4::Lx => 0xB,
            Opecode4::Stx => 0xC,
        }
    }
}

/// Memory operations with an address operand: 6-bit operation code, one
/// register and an 8-bit address field.
#[derive(Clone, Copy, Debug, PartialEq, Eq, Hash, Structural)]
pub enum Opecode5 {
    L,
    St,
    La,
}

impl Opecode5 {
    /// The 6-bit operation code (bits 15-10).
    pub open spec fn spec_code(self) -> MachineCode {
        match self {
            Opecode5::L => 0x24,
            Opecode5::St => 0x25,
            Opecode5::La => 0x26,
        }
    }

    pub fn code(&self) -> (c: MachineCode)
        ensures
            c == self.spec_code(),
    {
        match self {
            Opecode5::L => 0x24,
            Opecode5::St => 0x25,
            Opecode5::La => 0x26,
        }
    }
}

/// Branch operations: 8-bit operation code and an 8-bit address field.
#[derive(Clone, Copy, Debug, PartialEq, Eq, Hash, Structural)]
pub enum Opecode6 {
    Bdis,
    Bp,
    Bz,
    Bm,
    Bc,
    Bnp,
    Bnz,
    Bnm,
    Bnc,
    B,
    Bi,
    Bsr,
}

impl Opecode6 {
    /// The 8-bit operation code (bits 15-8).
    pub open spec fn spec_code(self) -> MachineCode {
        match self {
            Opecode6::Bdis => 0xDC,
            Opecode6::Bp => 0xE0,
            Opecode6::Bz => 0xE1,
            Opecode6::Bm => 0xE2,
            Opecode6::Bc => 0xE3,
            Opecode6::Bnp => 0xE4,
            Opecode6::Bnz => 0xE5,
            Opecode6::Bnm => 0xE6,
            Opecode6::Bnc => 0xE7,
            Opecode6::B => 0xE8,
            Opecode6::Bi => 0xE9,
            Opecode6::Bsr => 0xEA,
        }
    }

    pub fn code(&self) -> (c: MachineCode)
        ensures
            c == self.spec_code(),
    {
        match self {
            Opecode6::Bdis => 0xDC,
            Opecode6::Bp => 0xE0,
            Opecode6::Bz => 0xE1,
            Opecode6::Bm => 0xE2,
            Opecode6::Bc => 0xE3,
            Opecode6::Bnp => 0xE4,
            Opecode6::Bnz => 0xE5,
            Opecode6::Bnm => 0xE6,
            Opecode6::Bnc => 0xE7,
            Opecode6::B => 0xE8,
            Opecode6::Bi => 0xE9,
            Opecode6::Bsr => 0xEA,
        }
    }
}

/// A peripheral device: card reader or line printer.
#[derive(Clone, Copy, Debug, PartialEq, Eq, Hash, Structural)]
pub enum Device {
    Cr,
    Lpt,
}

impl Device {
    /// The device's 8-bit field value.
    pub open spec fn spec_code(self) -> MachineCode {
        match self {
            Device::Cr => 0,
            Device::Lpt => 1,
        }
    }

    pub fn code(&self) -> (c: MachineCode)
        ensures
            c == self.spec_code(),
    {
        match self {
            Device::Cr => 0,
            Device::Lpt => 1,
        }
    }
}

/// Device I/O operations: 8-bit operation code and an 8-bit device field.
#[derive(Clone, Copy, Debug, PartialEq, Eq, Hash, Structural)]
pub enum Opecode7 {
    Rio,
    Wio,
}

impl Opecode7 {
    /// The 8-bit operation code (bits 15-8).
    pub open spec fn spec_code(self) -> MachineCode {
        match self {
            Opecode7::Rio => 0xEC,
            Opecode7::Wio => 0xED,
        }
    }

    pub fn code(&self) -> (c: MachineCode)
        ensures
            c == self.spec_code(),
    {
        match self {
            Opecode7::Rio => 0xEC,
            Opecode7::Wio => 0xED,
        }
    }
}

/// Operand-less operations: 8-bit operation code, low byte zero.
#[derive(Clone, Copy, Debug, PartialEq, Eq, Hash, Structural)]
pub enum Opecode8 {
    Ret,
    Nop,
    Hlt,
}

impl Opecode8 {
    /// The 8-bit operation code (bits 15-8).
    pub open spec fn spec_code(self) -> MachineCode {
        match self {
            Opecode8::Ret => 0xEB,
            Opecode8::Nop => 0xEE,
            Opecode8::Hlt => 0xEF,
        }
    }

    pub fn code(&self) -> (c: MachineCode)
        ensures
            c == self.spec_code(),
    {
        match self {
            Opecode8::Ret => 0xEB,
            Opecode8::Nop => 0xEE,
            Opecode8::Hlt => 0xEF,
        }
    }
}

/// One source instruction: a machine operation in one of the nine encoding
/// shapes, or one of the three pseudo-operations `Dc` (define constant),
/// `Ds` (define storage) and `Org` (set origin).
#[derive(Debug, PartialEq, Eq, Hash)]
pub enum Instruction {
    // 15 14 13 12 11 10  9  8  7  6  5  4  3  2  1  0
    // |    op    | ra  | rb  |       constant       |
    Group1 { op: Opecode1, ra: Register, rb: Register, constant: u8 },
    // 15 14 13 12 11 10  9  8  7  6  5  4  3  2  1  0
    // |       op       | rb  |       constant       |
    Group2 { op: Opecode2, rb: Register, constant: u8 },
    // 15 14 13 12 11 10  9  8  7  6  5  4  3  2  1  0
    // |       op       | rb  |       constant       |
    Group3 { op: Opecode3, rb: Register, constant: i8 },
    // 15 14 13 12 11 10  9  8  7  6  5  4  3  2  1  0
    // |    op    | ra  | rb  |       constant       |
    Group4 { op: Opecode4, ra: Register, rb: Register, constant: i8 },
    // 15 14 13 12 11 10  9  8  7  6  5  4  3  2  1  0
    // |       op       | rb  |       address        |
    Group5 { op: Opecode5, rb: Register, address: Address },
    // 15 14 13 12 11 10  9  8  7  6  5  4  3  2  1  0
    // |         op           |       address        |
    Group6 { op: Opecode6, address: Address },
    // 15 14 13 12 11 10  9  8  7  6  5  4  3  2  1  0
    // |         op           |       device         |
    Group7 { op: Opecode7, device: Device },
    // 15 14 13 12 11 10  9  8  7  6  5  4  3  2  1  0
    // |         op           |          0           |
    Group8 { op: Opecode8 },
    Dc { value: MachineCode, unresolved_symbol: Option<String> },
    Ds(u16),
    Org(MachineAddress),
}

impl Clone for Instruction {
    fn clone(&self) -> (res: Self)
        ensures
            res == *self,
    {
        match self {
            Instruction::Group1 { op, ra, rb, constant } => Instruction::Group1 {
                op: *op,
                ra: *ra,
                rb: *rb,
                constant: *constant,
            },
            Instruction::Group2 { op, rb, constant } => Instruction::Group2 {
                op: *op,
                rb: *rb,
                constant: *constant,
            },
            Instruction::Group3 { op, rb, constant } => Instruction::Group3 {
                op: *op,
                rb: *rb,
                constant: *constant,
            },
            Instruction::Group4 { op, ra, rb, constant } => Instruction::Group4 {
                op: *op,
                ra: *ra,
                rb: *rb,
                constant: *constant,
            },
            Instruction::Group5 { op, rb, address } => Instruction::Group5 {
                op: *op,
                rb: *rb,
                address: address.clone(),
            },
            Instruction::Group6 { op, address } => Instruction::Group6 {
                op: *op,
                address: address.clone(),
            },
            Instruction::Group7 { op, device } => Instruction::Group7 { op: *op, device: *device },
            Instruction::Group8 { op } => Instruction::Group8 { op: *op },
            Instruction::Dc { value, unresolved_symbol } => Instruction::Dc {
                value: *value,
                unresolved_symbol: match unresolved_symbol {
                    Option::Some(s) => Option::Some(s.clone()),
                    Option::None => Option::None,
                },
            },
            Instruction::Ds(s) => Instruction::Ds(*s),
            Instruction::Org(a) => Instruction::Org(*a),
        }
    }
}

impl Instruction {
    /// A machine operation, as opposed to a reservation or origin pseudo-op.
    pub open spec fn is_machine_op(self) -> bool {
        !(self is Ds || self is Org)
    }

    /// The instruction still carries a symbolic reference that symbol
    /// resolution has not rewritten.
    pub open spec fn has_unresolved_ref(self) -> bool {
        ||| self matches Instruction::Group5 { address: Address::Unresolved { .. }, .. }
        ||| self matches Instruction::Group6 { address: Address::Unresolved { .. }, .. }
        ||| self matches Instruction::Dc { unresolved_symbol: Option::Some(_), .. }
    }

    /// Exactly the instructions that pack into a machine word: machine
    /// operations whose address fields are fully resolved.
    pub open spec fn is_encodable(self) -> bool {
        self.is_machine_op() && !self.has_unresolved_ref()
    }
}

/// The 16-bit word an instruction packs into, per the per-group bit layout,
/// or `Err` for a pseudo-op or an instruction with an unresolved reference.
pub open spec fn spec_encode(ins: Instruction) -> Result<MachineCode, ()> {
    match ins {
        Instruction::Group1 { op, ra, rb, constant } => Ok(
            (op.spec_code() * 0x1000 + ra.spec_code() * 0x400 + rb.spec_code() * 0x100
                + constant) as u16,
        ),
        Instruction::Group2 { op, rb, constant } => Ok(
            (op.spec_code() * 0x400 + rb.spec_code() * 0x100 + constant) as u16,
        ),
        Instruction::Group3 { op, rb, constant } => Ok(
            (op.spec_code() * 0x400 + rb.spec_code() * 0x100 + (constant as u8)) as u16,
        ),
        Instruction::Group4 { op, ra, rb, constant } => Ok(
            (op.spec_code() * 0x1000 + ra.spec_code() * 0x400 + rb.spec_code() * 0x100 + (
            constant as u8)) as u16,
        ),
        Instruction::Group5 { op, rb, address } => match address {
            Address::Constant(c) => Ok(
                (op.spec_code() * 0x400 + rb.spec_code() * 0x100 + c % 0x100) as u16,
            ),
            Address::Unresolved { .. } => Err(()),
        },
        Instruction::Group6 { op, address } => match address {
            Address::Constant(c) => Ok((op.spec_code() * 0x100 + c % 0x100) as u16),
            Address::Unresolved { .. } => Err(()),
        },
        Instruction::Group7 { op, device } => Ok((op.spec_code() * 0x100 + device.spec_code()) as u16),
        Instruction::Group8 { op } => Ok((op.spec_code() * 0x100) as u16),
        Instruction::Dc { value, unresolved_symbol } => match unresolved_symbol {
            Option::None => Ok(value),
            Option::Some(_) => Err(()),
        },
        Instruction::Ds(_) => Err(()),
        Instruction::Org(_) => Err(()),
    }
}

impl Instruction {
    /// Pack this instruction into its 16-bit machine word.
    ///
    /// Succeeds exactly on encodable instructions: machine operations with no
    /// remaining unresolved reference. Pseudo-ops and instructions still
    /// carrying a symbol deterministically fail.
    pub fn encode(&self) -> (r: Result<MachineCode, ()>)
        ensures
            r == spec_encode(*self),
            r is Ok <==> self.is_encodable(),
    {
        match self {
            Instruction::Group1 { op, ra, rb, constant } => {
                Ok(op.code() * 0x1000 + ra.code() * 0x400 + rb.code() * 0x100 + (*constant as u16))
            }
            Instruction::Group2 { op, rb, constant } => {
                Ok(op.code() * 0x400 + rb.code() * 0x100 + (*constant as u16))
            }
            Instruction::Group3 { op, rb, constant } => {
                Ok(op.code() * 0x400 + rb.code() * 0x100 + ((*constant as u8) as u16))
            }
            Instruction::Group4 { op, ra, rb, constant } => {
                Ok(op.code() * 0x1000 + ra.code() * 0x400 + rb.code() * 0x100 + ((*constant
                    as u8) as u16))
            }
            Instruction::Group5 { op, rb, address } => match address {
                Address::Constant(c) => Ok(op.code() * 0x400 + rb.code() * 0x100 + *c % 0x100),
                Address::Unresolved { .. } => Err(()),
            },
            Instruction::Group6 { op, address } => match address {
                Address::Constant(c) => Ok(op.code() * 0x100 + *c % 0x100),
                Address::Unresolved { .. } => Err(()),
            },
            Instruction::Group7 { op, device } => Ok(op.code() * 0x100 + device.code()),
            Instruction::Group8 { op } => Ok(op.code() * 0x100),
            Instruction::Dc { value, unresolved_symbol } => match unresolved_symbol {
                Option::None => Ok(*value),
                Option::Some(_) => Err(()),
            },
            Instruction::Ds(_) => Err(()),
            Instruction::Org(_) => Err(()),
        }
    }
}

} // verus!
