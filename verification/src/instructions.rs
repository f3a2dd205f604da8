//! The instruction set: symbolic instructions as parsed, addressed
//! instructions after label resolution, and the fixed two-byte encoding.

use vstd::prelude::*;

verus! {

/// A signed 8-bit immediate operand.
pub type Immediate = i8;

/// An 8-bit address into the text or data space.
pub type Address = u8;

/// An instruction as parsed: label operands are still symbolic names.
#[derive(Debug, Clone, PartialEq)]
pub enum Instruction {
    Add(String),
    AddImmediate(Immediate),
    Subtract(String),
    SubtractImmediate(Immediate),
    Multiply(String),
    MultiplyImmediate(Immediate),
    Divide(String),
    DivideImmediate(Immediate),
    Remainder(String),
    RemainderImmediate(Immediate),
    Shift(Immediate),
    And(String),
    AndImmediate(Immediate),
    BranchZero(String),
    Branch(String),
    ClearAc,
    Store(String),
    NoOp,
}

/// The mathematical image of an [`Instruction`], with label names as
/// character sequences.
pub enum InstructionModel {
    Add(Seq<char>),
    AddImmediate(Immediate),
    Subtract(Seq<char>),
    SubtractImmediate(Immediate),
    Multiply(Seq<char>),
    MultiplyImmediate(Immediate),
    Divide(Seq<char>),
    DivideImmediate(Immediate),
    Remainder(Seq<char>),
    RemainderImmediate(Immediate),
    Shift(Immediate),
    And(Seq<char>),
    AndImmediate(Immediate),
    BranchZero(Seq<char>),
    Branch(Seq<char>),
    ClearAc,
    Store(Seq<char>),
    NoOp,
}

impl View for Instruction {
    type V = InstructionModel;

    open spec fn view(&self) -> InstructionModel {
        match self {
            Instruction::Add(l) => InstructionModel::Add(l@),
            Instruction::AddImmediate(i) => InstructionModel::AddImmediate(*i),
            Instruction::Subtract(l) => InstructionModel::Subtract(l@),
            Instruction::SubtractImmediate(i) => InstructionModel::SubtractImmediate(*i),
            Instruction::Multiply(l) => InstructionModel::Multiply(l@),
            Instruction::MultiplyImmediate(i) => InstructionModel::MultiplyImmediate(*i),
            Instruction::Divide(l) => InstructionModel::Divide(l@),
            Instruction::DivideImmediate(i) => InstructionModel::DivideImmediate(*i),
            Instruction::Remainder(l) => InstructionModel::Remainder(l@),
            Instruction::RemainderImmediate(i) => InstructionModel::RemainderImmediate(*i),
            Instruction::Shift(i) => InstructionModel::Shift(*i),
            Instruction::And(l) => InstructionModel::And(l@),
            Instruction::AndImmediate(i) => InstructionModel::AndImmediate(*i),
            Instruction::BranchZero(l) => InstructionModel::BranchZero(l@),
            Instruction::Branch(l) => InstructionModel::Branch(l@),
            Instruction::ClearAc => InstructionModel::ClearAc,
            Instruction::Store(l) => InstructionModel::Store(l@),
            Instruction::NoOp => InstructionModel::NoOp,
        }
    }
}

/// The same instruction set with every label operand replaced by its
/// resolved 8-bit address.
#[derive(Debug, Clone, Copy, PartialEq, Eq, Structural)]
pub enum AddressedInstruction {
    Add(Address),
    AddImmediate(Immediate),
    Subtract(Address),
    SubtractImmediate(Immediate),
    Multiply(Address),
    MultiplyImmediate(Immediate),
    Divide(Address),
    DivideImmediate(Immediate),
    Remainder(Address),
    RemainderImmediate(Immediate),
    Shift(Immediate),
    And(Address),
    AndImmediate(Immediate),
    BranchZero(Address),
    Branch(Address),
    ClearAc,
    Store(Address),
    NoOp,
}

/// The 4-bit opcode of an instruction.
pub open spec fn opcode_spec(i: AddressedInstruction) -> u8 {
    match i {
        AddressedInstruction::NoOp => 0,
        AddressedInstruction::AddImmediate(_) => 1,
        AddressedInstruction::SubtractImmediate(_) => 1,
        AddressedInstruction::MultiplyImmediate(_) => 1,
        AddressedInstruction::DivideImmediate(_) => 1,
        AddressedInstruction::AndImmediate(_) => 1,
        AddressedInstruction::RemainderImmediate(_) => 1,
        AddressedInstruction::Shift(_) => 1,
        AddressedInstruction::Add(_) => 2,
        AddressedInstruction::Subtract(_) => 2,
        AddressedInstruction::Multiply(_) => 2,
        AddressedInstruction::Divide(_) => 2,
        AddressedInstruction::Remainder(_) => 2,
        AddressedInstruction::And(_) => 2,
        AddressedInstruction::ClearAc => 3,
        AddressedInstruction::Store(_) => 4,
        AddressedInstruction::BranchZero(_) => 5,
        AddressedInstruction::Branch(_) => 6,
    }
}

/// The 3-bit ALU operation of an instruction; zero where none applies.
pub open spec fn alu_op_spec(i: AddressedInstruction) -> u8 {
    match i {
        AddressedInstruction::NoOp => 0,
        AddressedInstruction::ClearAc => 0,
        AddressedInstruction::Store(_) => 0,
        AddressedInstruction::BranchZero(_) => 0,
        AddressedInstruction::Branch(_) => 0,
        AddressedInstruction::AddImmediate(_) => 0,
        AddressedInstruction::Add(_) => 0,
        AddressedInstruction::SubtractImmediate(_) => 1,
        AddressedInstruction::Subtract(_) => 1,
        AddressedInstruction::MultiplyImmediate(_) => 2,
        AddressedInstruction::Multiply(_) => 2,
        AddressedInstruction::DivideImmediate(_) => 3,
        AddressedInstruction::Divide(_) => 3,
        AddressedInstruction::RemainderImmediate(_) => 4,
        AddressedInstruction::Remainder(_) => 4,
        AddressedInstruction::AndImmediate(_) => 5,
        AddressedInstruction::And(_) => 5,
        AddressedInstruction::Shift(_) => 6,
    }
}

/// The operand byte: the address, or the immediate's two's-complement bit
/// pattern; zero where the instruction has no operand.
pub open spec fn value_spec(i: AddressedInstruction) -> u8 {
    match i {
        AddressedInstruction::NoOp => 0,
        AddressedInstruction::ClearAc => 0,
        AddressedInstruction::AddImmediate(v) => v as u8,
        AddressedInstruction::SubtractImmediate(v) => v as u8,
        AddressedInstruction::MultiplyImmediate(v) => v as u8,
        AddressedInstruction::DivideImmediate(v) => v as u8,
        AddressedInstruction::AndImmediate(v) => v as u8,
        AddressedInstruction::RemainderImmediate(v) => v as u8,
        AddressedInstruction::Shift(v) => v as u8,
        AddressedInstruction::Add(a) => a,
        AddressedInstruction::Subtract(a) => a,
        AddressedInstruction::Multiply(a) => a,
        AddressedInstruction::Divide(a) => a,
        AddressedInstruction::And(a) => a,
        AddressedInstruction::Store(a) => a,
        AddressedInstruction::Remainder(a) => a,
        AddressedInstruction::Branch(a) => a,
        AddressedInstruction::BranchZero(a) => a,
    }
}

/// The two-byte encoding: opcode nibble and ALU nibble packed into the
/// first byte, the operand byte second.
pub open spec fn instr_bytes(i: AddressedInstruction) -> Seq<u8> {
    seq![(opcode_spec(i) << 4) | alu_op_spec(i), value_spec(i)]
}

/// Decoding the packed byte recovers the opcode and the ALU operation.
pub proof fn lemma_bytes_round_trip(i: AddressedInstruction)
    ensures
        instr_bytes(i)[0] >> 4 == opcode_spec(i),
        instr_bytes(i)[0] & 0xf == alu_op_spec(i),
{
    let op = opcode_spec(i);
    let alu = alu_op_spec(i);
    assert(((op << 4) | alu) >> 4 == op && ((op << 4) | alu) & 0xf == alu) by (bit_vector)
        requires
            op <= 6,
            alu <= 6,
    ;
}

/// The hexadecimal digit character for `d` (meaningful for `0 <= d <= 15`).
pub open spec fn hex_char(d: int) -> char {
    if d < 10 {
        crate::token::digit_char(d)
    } else if d == 10 {
        'a'
    } else if d == 11 {
        'b'
    } else if d == 12 {
        'c'
    } else if d == 13 {
        'd'
    } else if d == 14 {
        'e'
    } else {
        'f'
    }
}

/// The two hexadecimal digits of a byte.
pub open spec fn byte_hex(b: u8) -> Seq<char> {
    seq![hex_char(b as int / 16), hex_char(b as int % 16)]
}

/// A one-character string for the hexadecimal digit `d`.
fn hex_digit_str(d: u8) -> (r: &'static str)
    requires
        d < 16,
    ensures
        r@ == seq![hex_char(d as int)],
{
    if d < 10 {
        crate::token::digit_str(d as u16)
    } else {
        let r: &'static str = if d == 10 {
            "a"
        } else if d == 11 {
            "b"
        } else if d == 12 {
            "c"
        } else if d == 13 {
            "d"
        } else if d == 14 {
            "e"
        } else {
            "f"
        };
        proof {
            reveal_strlit("a");
            reveal_strlit("b");
            reveal_strlit("c");
            reveal_strlit("d");
            reveal_strlit("e");
            reveal_strlit("f");
            assert(r@ =~= seq![hex_char(d as int)]);
        }
        r
    }
}

impl AddressedInstruction {
    /// The 4-bit opcode.
    pub fn opcode(&self) -> (r: u8)
        ensures
            r == opcode_spec(*self),
            r <= 6,
    {
        match self {
            AddressedInstruction::NoOp => 0,
            AddressedInstruction::AddImmediate(_) => 1,
            AddressedInstruction::SubtractImmediate(_) => 1,
            AddressedInstruction::MultiplyImmediate(_) => 1,
            AddressedInstruction::DivideImmediate(_) => 1,
            AddressedInstruction::AndImmediate(_) => 1,
            AddressedInstruction::RemainderImmediate(_) => 1,
            AddressedInstruction::Shift(_) => 1,
            AddressedInstruction::Add(_) => 2,
            AddressedInstruction::Subtract(_) => 2,
            AddressedInstruction::Multiply(_) => 2,
            AddressedInstruction::Divide(_) => 2,
            AddressedInstruction::Remainder(_) => 2,
            AddressedInstruction::And(_) => 2,
            AddressedInstruction::ClearAc => 3,
            AddressedInstruction::Store(_) => 4,
            AddressedInstruction::BranchZero(_) => 5,
            AddressedInstruction::Branch(_) => 6,
        }
    }

    /// The 3-bit ALU operation.
    pub fn alu_op(&self) -> (r: u8)
        ensures
            r == alu_op_spec(*self),
            r <= 6,
    {
        match self {
            AddressedInstruction::NoOp => 0,
            AddressedInstruction::ClearAc => 0,
            AddressedInstruction::Store(_) => 0,
            AddressedInstruction::BranchZero(_) => 0,
            AddressedInstruction::Branch(_) => 0,
            AddressedInstruction::AddImmediate(_) => 0,
            AddressedInstruction::Add(_) => 0,
            AddressedInstruction::SubtractImmediate(_) => 1,
            AddressedInstruction::Subtract(_) => 1,
            AddressedInstruction::MultiplyImmediate(_) => 2,
            AddressedInstruction::Multiply(_) => 2,
            AddressedInstruction::DivideImmediate(_) => 3,
            AddressedInstruction::Divide(_) => 3,
            AddressedInstruction::RemainderImmediate(_) => 4,
            AddressedInstruction::Remainder(_) => 4,
            AddressedInstruction::AndImmediate(_) => 5,
            AddressedInstruction::And(_) => 5,
            AddressedInstruction::Shift(_) => 6,
        }
    }

    /// The operand byte.
    pub fn value(&self) -> (r: u8)
        ensures
            r == value_spec(*self),
    {
        match self {
            AddressedInstruction::NoOp => 0,
            AddressedInstruction::ClearAc => 0,
            AddressedInstruction::AddImmediate(v) => *v as u8,
            AddressedInstruction::SubtractImmediate(v) => *v as u8,
            AddressedInstruction::MultiplyImmediate(v) => *v as u8,
            AddressedInstruction::DivideImmediate(v) => *v as u8,
            AddressedInstruction::AndImmediate(v) => *v as u8,
            AddressedInstruction::RemainderImmediate(v) => *v as u8,
            AddressedInstruction::Shift(v) => *v as u8,
            AddressedInstruction::Add(a) => *a,
            AddressedInstruction::Subtract(a) => *a,
            AddressedInstruction::Multiply(a) => *a,
            AddressedInstruction::Divide(a) => *a,
            AddressedInstruction::And(a) => *a,
            AddressedInstruction::Store(a) => *a,
            AddressedInstruction::Remainder(a) => *a,
            AddressedInstruction::Branch(a) => *a,
            AddressedInstruction::BranchZero(a) => *a,
        }
    }

    /// The two-byte encoding of this instruction.
    pub fn bytes(&self) -> (r: [u8; 2])
        ensures
            r@ == instr_bytes(*self),
    {
        let opcode = self.opcode();
        let alu_op = self.alu_op();
        let value = self.value();
        let r = [(opcode << 4) | alu_op, value];
        proof {
            assert(r@ =~= instr_bytes(*self));
        }
        r
    }

    /// The encoding as four hexadecimal digits, one line of an image file.
    pub fn hex_string(&self) -> (r: String)
        ensures
            r@ == byte_hex(instr_bytes(*self)[0]) + byte_hex(instr_bytes(*self)[1]),
    {
        let opcode = self.opcode();
        let alu_op = self.alu_op();
        let value = self.value();
        let b0 = (opcode << 4) | alu_op;
        let b1 = value;
        let r = hex_digit_str(b0 / 16).to_owned().concat(hex_digit_str(b0 % 16)).concat(
            hex_digit_str(b1 / 16),
        ).concat(hex_digit_str(b1 % 16));
        proof {
            assert(r@ =~= byte_hex(instr_bytes(*self)[0]) + byte_hex(instr_bytes(*self)[1]));
        }
        r
    }
}


/// The hexadecimal digits of `n` without a leading zero; empty for
/// `n <= 0`.
pub open spec fn hex_digits(n: int) -> Seq<char>
    decreases n,
{
    if n <= 0 {
        Seq::empty()
    } else {
        hex_digits(n / 16).push(hex_char(n % 16))
    }
}

/// An address the way listings show it: `0x` and its hexadecimal digits.
pub open spec fn hex_literal(n: int) -> Seq<char> {
    if n == 0 {
        "0x0"@
    } else {
        "0x"@ + hex_digits(n)
    }
}

/// The listing line of an instruction: its mnemonic and, where it has one,
/// its operand — addresses in hexadecimal, immediates in decimal.
pub open spec fn instr_display(i: AddressedInstruction) -> Seq<char> {
    match i {
        AddressedInstruction::Add(a) => "add "@ + hex_literal(a as int),
        AddressedInstruction::Subtract(a) => "sub "@ + hex_literal(a as int),
        AddressedInstruction::Multiply(a) => "mul "@ + hex_literal(a as int),
        AddressedInstruction::Divide(a) => "div "@ + hex_literal(a as int),
        AddressedInstruction::Remainder(a) => "rem "@ + hex_literal(a as int),
        AddressedInstruction::And(a) => "and "@ + hex_literal(a as int),
        AddressedInstruction::Store(a) => "store "@ + hex_literal(a as int),
        AddressedInstruction::AddImmediate(v) => "addi "@ + crate::token::dec_string(v as int),
        AddressedInstruction::SubtractImmediate(v) => "subi "@ + crate::token::dec_string(v as int),
        AddressedInstruction::MultiplyImmediate(v) => "muli "@ + crate::token::dec_string(v as int),
        AddressedInstruction::DivideImmediate(v) => "divi "@ + crate::token::dec_string(v as int),
        AddressedInstruction::RemainderImmediate(v) => "remi "@ + crate::token::dec_string(
            v as int,
        ),
        AddressedInstruction::Shift(v) => "shift "@ + crate::token::dec_string(v as int),
        AddressedInstruction::AndImmediate(v) => "andi "@ + crate::token::dec_string(v as int),
        AddressedInstruction::BranchZero(a) => "beqz "@ + hex_literal(a as int),
        AddressedInstruction::Branch(a) => "br "@ + hex_literal(a as int),
        AddressedInstruction::ClearAc => "clac"@,
        AddressedInstruction::NoOp => "noop"@,
    }
}

/// The hexadecimal digits of a positive byte, most significant first.
fn pos_hex_string(n: u8) -> (r: String)
    requires
        n > 0,
    ensures
        r@ == hex_digits(n as int),
    decreases n,
{
    let d = n % 16;
    let q = n / 16;
    let ds = hex_digit_str(d);
    if q == 0 {
        let r = ds.to_owned();
        proof {
            assert(hex_digits(n as int) =~= hex_digits(q as int).push(hex_char(d as int)));
            assert(r@ =~= hex_digits(n as int));
        }
        r
    } else {
        let prefix = pos_hex_string(q);
        let r = prefix.concat(ds);
        proof {
            assert(hex_digits(n as int) =~= hex_digits(q as int).push(hex_char(d as int)));
            assert(r@ =~= hex_digits(n as int));
        }
        r
    }
}

/// An address formatted as `0x` and its hexadecimal digits.
fn addr_hex_literal(a: u8) -> (r: String)
    ensures
        r@ == hex_literal(a as int),
{
    if a == 0 {
        "0x0".to_owned()
    } else {
        let r = "0x".to_owned().concat(pos_hex_string(a).as_str());
        proof {
            assert(r@ =~= hex_literal(a as int));
        }
        r
    }
}

impl AddressedInstruction {
    /// The instruction as one listing line, mnemonic and operand.
    pub fn display_string(&self) -> (r: String)
        ensures
            r@ == instr_display(*self),
    {
        match self {
            AddressedInstruction::Add(a) => "add ".to_owned().concat(
                addr_hex_literal(*a).as_str(),
            ),
            AddressedInstruction::Subtract(a) => "sub ".to_owned().concat(
                addr_hex_literal(*a).as_str(),
            ),
            AddressedInstruction::Multiply(a) => "mul ".to_owned().concat(
                addr_hex_literal(*a).as_str(),
            ),
            AddressedInstruction::Divide(a) => "div ".to_owned().concat(
                addr_hex_literal(*a).as_str(),
            ),
            AddressedInstruction::Remainder(a) => "rem ".to_owned().concat(
                addr_hex_literal(*a).as_str(),
            ),
            AddressedInstruction::And(a) => "and ".to_owned().concat(
                addr_hex_literal(*a).as_str(),
            ),
            AddressedInstruction::Store(a) => "store ".to_owned().concat(
                addr_hex_literal(*a).as_str(),
            ),
            AddressedInstruction::AddImmediate(v) => "addi ".to_owned().concat(
                crate::token::i16_to_string(*v as i16).as_str(),
            ),
            AddressedInstruction::SubtractImmediate(v) => "subi ".to_owned().concat(
                crate::token::i16_to_string(*v as i16).as_str(),
            ),
            AddressedInstruction::MultiplyImmediate(v) => "muli ".to_owned().concat(
                crate::token::i16_to_string(*v as i16).as_str(),
            ),
            AddressedInstruction::DivideImmediate(v) => "divi ".to_owned().concat(
                crate::token::i16_to_string(*v as i16).as_str(),
            ),
            AddressedInstruction::RemainderImmediate(v) => "remi ".to_owned().concat(
                crate::token::i16_to_string(*v as i16).as_str(),
            ),
            AddressedInstruction::Shift(v) => "shift ".to_owned().concat(
                crate::token::i16_to_string(*v as i16).as_str(),
            ),
            AddressedInstruction::AndImmediate(v) => "andi ".to_owned().concat(
                crate::token::i16_to_string(*v as i16).as_str(),
            ),
            AddressedInstruction::BranchZero(a) => "beqz ".to_owned().concat(
                addr_hex_literal(*a).as_str(),
            ),
            AddressedInstruction::Branch(a) => "br ".to_owned().concat(
                addr_hex_literal(*a).as_str(),
            ),
            AddressedInstruction::ClearAc => "clac".to_owned(),
            AddressedInstruction::NoOp => "noop".to_owned(),
        }
    }
}

} // verus!
