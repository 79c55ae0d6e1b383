//! Machine-level instructions and the opcode table: decoding bytes of memory into
//! typed instructions, and the inverse encoding used by the assembler.

use vstd::prelude::*;

verus! {

/// An effective-address operand as it appears in machine code.
#[derive(Debug, Clone, Copy, PartialEq, Eq, Structural)]
pub struct Address {
    pub address: u16,
    pub index: Option<u8>,
    /// Whether the operand was encoded with a single address byte.
    pub zero_page: bool,
}

pub open spec fn word_of(high: u8, low: u8) -> u16 {
    (high as int * 256 + low as int) as u16
}

pub open spec fn high_byte(value: u16) -> u8 {
    (value as int / 256) as u8
}

pub open spec fn low_byte(value: u16) -> u8 {
    (value as int % 256) as u8
}

impl Address {
    pub open spec fn spec_absolute(big_part: u8, small_part: u8) -> Address {
        Address { address: word_of(big_part, small_part), index: None, zero_page: false }
    }

    pub open spec fn spec_indexed(big_part: u8, small_part: u8, index: u8) -> Address {
        Address { address: word_of(big_part, small_part), index: Some(index), zero_page: false }
    }

    pub open spec fn spec_zeropage(address: u8) -> Address {
        Address { address: address as u16, index: None, zero_page: true }
    }

    pub open spec fn spec_zeropage_indexed(address: u8, index: u8) -> Address {
        Address { address: address as u16, index: Some(index), zero_page: true }
    }

    pub fn new_absolute(big_part: u8, small_part: u8) -> (r: Address)
        ensures
            r == Address::spec_absolute(big_part, small_part),
    {
        Address { address: (big_part as u16) * 256 + (small_part as u16), index: None, zero_page: false }
    }

    pub fn new_indexed(big_part: u8, small_part: u8, index: u8) -> (r: Address)
        ensures
            r == Address::spec_indexed(big_part, small_part, index),
    {
        Address {
            address: (big_part as u16) * 256 + (small_part as u16),
            index: Some(index),
            zero_page: false,
        }
    }

    pub fn new_zeropage(address: u8) -> (r: Address)
        ensures
            r == Address::spec_zeropage(address),
    {
        Address { address: address as u16, index: None, zero_page: true }
    }

    pub fn new_zeropage_indexed(address: u8, index: u8) -> (r: Address)
        ensures
            r == Address::spec_zeropage_indexed(address, index),
    {
        Address { address: address as u16, index: Some(index), zero_page: true }
    }
}

/// A decoded machine instruction. Register operands are register numbers.
#[derive(Debug, Clone, Copy, PartialEq, Eq)]
pub enum Instruction {
    Noop,
    Add(Option<u8>, Option<(u8, u8)>),
    Subtract(Option<u8>, Option<(u8, u8)>),
    SetCarry,
    ClearCarry,
    Xor(Option<u8>, Option<(u8, u8)>),
    Xnor(Option<u8>, Option<(u8, u8)>),
    Or(Option<u8>, Option<(u8, u8)>),
    Nor(Option<u8>, Option<(u8, u8)>),
    And(Option<u8>, Option<(u8, u8)>),
    Nand(Option<u8>, Option<(u8, u8)>),
    Not,
    RotateRight,
    RotateLeft,
    ShiftRight,
    ShiftLeft,
    PushRegisterToStack(u8),
    PopRegisterFromStack(u8),
    LoadAccumulator(Option<Address>, Option<u8>),
    StoreAccumulator(Address),
    CopyAccumulatorToRegister(u8),
    CopyRegisterToAccumulator(u8),
    BranchCarrySet(Address),
    BranchCarryClear(Address),
    BranchNegative(Address),
    BranchPositive(Address),
    BranchEqual(u8, Address),
    BranchNotEqual(u8, Address),
    BranchZero(Address),
    BranchNotZero(Address),
    BranchGreater(u8, Address),
    BranchLess(u8, Address),
    Jump(Address),
    PushProgramCounter,
    PopProgramCounter,
    PopProgramCounterSubroutine,
}

/// Why the instruction at the program counter cannot be run.
#[derive(Debug, Clone, Copy, PartialEq, Eq, Structural)]
pub enum DecodeError {
    /// The byte is not an opcode: the only reason decoding fails.
    UnknownOpcode(u8),
    /// A decoded instruction names a register other than the eight there are, so it cannot
    /// be executed.
    InvalidRegister(u8),
}

/// The instruction that starts with opcode `op` followed by operand bytes `p1`..`p4`,
/// and how many of those operand bytes it uses.
pub open spec fn decode_spec(op: u8, p1: u8, p2: u8, p3: u8, p4: u8) -> Result<(Instruction, u8), DecodeError> {
    match op {
        0x00 => Ok((Instruction::Noop, 0)),
        0x01 => Ok((Instruction::Add(Some(p1), None), 1)),
        0x02 => Ok((Instruction::Add(None, Some((p1, p2))), 2)),
        0x03 => Ok((Instruction::Subtract(Some(p1), None), 1)),
        0x04 => Ok((Instruction::Subtract(None, Some((p1, p2))), 2)),
        0x05 => Ok((Instruction::SetCarry, 0)),
        0x06 => Ok((Instruction::ClearCarry, 0)),
        0x07 => Ok((Instruction::Xor(Some(p1), None), 1)),
        0x08 => Ok((Instruction::Xor(None, Some((p1, p2))), 2)),
        0x09 => Ok((Instruction::Xnor(Some(p1), None), 1)),
        0x0A => Ok((Instruction::Xnor(None, Some((p1, p2))), 2)),
        0x0B => Ok((Instruction::Or(Some(p1), None), 1)),
        0x0C => Ok((Instruction::Or(None, Some((p1, p2))), 2)),
        0x0D => Ok((Instruction::Nor(Some(p1), None), 1)),
        0x0E => Ok((Instruction::Nor(None, Some((p1, p2))), 2)),
        0x0F => Ok((Instruction::And(Some(p1), None), 1)),
        0x10 => Ok((Instruction::And(None, Some((p1, p2))), 2)),
        0x11 => Ok((Instruction::Nand(Some(p1), None), 1)),
        0x12 => Ok((Instruction::Nand(None, Some((p1, p2))), 2)),
        0x13 => Ok((Instruction::Not, 0)),
        0x14 => Ok((Instruction::RotateRight, 0)),
        0x15 => Ok((Instruction::RotateLeft, 0)),
        0x16 => Ok((Instruction::ShiftRight, 0)),
        0x17 => Ok((Instruction::ShiftLeft, 0)),
        0x21 => Ok((Instruction::PushRegisterToStack(p1), 1)),
        0x22 => Ok((Instruction::PopRegisterFromStack(p1), 1)),
        0x23 => Ok((Instruction::LoadAccumulator(Some(Address::spec_absolute(p1, p2)), None), 2)),
        0x24 => Ok((Instruction::LoadAccumulator(Some(Address::spec_indexed(p1, p2, p3)), None), 3)),
        0x25 => Ok((Instruction::LoadAccumulator(Some(Address::spec_zeropage(p1)), None), 1)),
        0x26 => Ok((Instruction::LoadAccumulator(Some(Address::spec_zeropage_indexed(p1, p2)), None), 2)),
        0x27 => Ok((Instruction::LoadAccumulator(None, Some(p1)), 1)),
        0x28 => Ok((Instruction::StoreAccumulator(Address::spec_absolute(p1, p2)), 2)),
        0x29 => Ok((Instruction::StoreAccumulator(Address::spec_indexed(p1, p2, p3)), 3)),
        0x2A => Ok((Instruction::StoreAccumulator(Address::spec_zeropage(p1)), 1)),
        0x2B => Ok((Instruction::StoreAccumulator(Address::spec_zeropage_indexed(p1, p2)), 2)),
        0x2C => Ok((Instruction::CopyAccumulatorToRegister(p1), 1)),
        0x2D => Ok((Instruction::CopyRegisterToAccumulator(p1), 1)),
        0x42 => Ok((Instruction::BranchCarrySet(Address::spec_absolute(p1, p2)), 2)),
        0x43 => Ok((Instruction::BranchCarrySet(Address::spec_indexed(p1, p2, p3)), 3)),
        0x44 => Ok((Instruction::BranchCarryClear(Address::spec_absolute(p1, p2)), 2)),
        0x45 => Ok((Instruction::BranchCarryClear(Address::spec_indexed(p1, p2, p3)), 3)),
        0x46 => Ok((Instruction::BranchNegative(Address::spec_absolute(p1, p2)), 2)),
        0x47 => Ok((Instruction::BranchNegative(Address::spec_indexed(p1, p2, p3)), 3)),
        0x48 => Ok((Instruction::BranchPositive(Address::spec_absolute(p1, p2)), 2)),
        0x49 => Ok((Instruction::BranchPositive(Address::spec_indexed(p1, p2, p3)), 3)),
        0x4A => Ok((Instruction::BranchEqual(p1, Address::spec_absolute(p2, p3)), 3)),
        0x4B => Ok((Instruction::BranchEqual(p1, Address::spec_indexed(p2, p3, p4)), 4)),
        0x4C => Ok((Instruction::BranchNotEqual(p1, Address::spec_absolute(p2, p3)), 3)),
        0x4D => Ok((Instruction::BranchNotEqual(p1, Address::spec_indexed(p2, p3, p4)), 4)),
        0x4E => Ok((Instruction::BranchZero(Address::spec_absolute(p1, p2)), 2)),
        0x4F => Ok((Instruction::BranchZero(Address::spec_indexed(p1, p2, p3)), 3)),
        0x50 => Ok((Instruction::BranchNotZero(Address::spec_absolute(p1, p2)), 2)),
        0x51 => Ok((Instruction::BranchNotZero(Address::spec_indexed(p1, p2, p3)), 3)),
        0x52 => Ok((Instruction::Jump(Address::spec_absolute(p1, p2)), 2)),
        0x53 => Ok((Instruction::Jump(Address::spec_indexed(p1, p2, p3)), 3)),
        0x54 => Ok((Instruction::PushProgramCounter, 0)),
        0x55 => Ok((Instruction::PopProgramCounter, 0)),
        0x57 => Ok((Instruction::PopProgramCounterSubroutine, 0)),
        0x58 => Ok((Instruction::BranchGreater(p1, Address::spec_absolute(p2, p3)), 3)),
        0x59 => Ok((Instruction::BranchGreater(p1, Address::spec_indexed(p2, p3, p4)), 4)),
        0x5A => Ok((Instruction::BranchLess(p1, Address::spec_absolute(p2, p3)), 3)),
        0x5B => Ok((Instruction::BranchLess(p1, Address::spec_indexed(p2, p3, p4)), 4)),
        _ => Err(DecodeError::UnknownOpcode(op)),
    }
}

/// The byte of `memory` at `pc + k`, wrapping at the end of the address space.
pub open spec fn byte_at(memory: Seq<u8>, pc: u16, k: int) -> u8 {
    memory[(pc as int + k) % 65536]
}

/// What decoding `memory` at `pc` yields.
pub open spec fn decode_at(memory: Seq<u8>, pc: u16) -> Result<(Instruction, u8), DecodeError> {
    decode_spec(
        byte_at(memory, pc, 0),
        byte_at(memory, pc, 1),
        byte_at(memory, pc, 2),
        byte_at(memory, pc, 3),
        byte_at(memory, pc, 4),
    )
}

fn decode(op: u8, p1: u8, p2: u8, p3: u8, p4: u8) -> (r: Result<(Instruction, u8), DecodeError>)
    ensures
        r == decode_spec(op, p1, p2, p3, p4),
{
    match op {
        0x00 => Ok((Instruction::Noop, 0)),
        0x01 => Ok((Instruction::Add(Some(p1), None), 1)),
        0x02 => Ok((Instruction::Add(None, Some((p1, p2))), 2)),
        0x03 => Ok((Instruction::Subtract(Some(p1), None), 1)),
        0x04 => Ok((Instruction::Subtract(None, Some((p1, p2))), 2)),
        0x05 => Ok((Instruction::SetCarry, 0)),
        0x06 => Ok((Instruction::ClearCarry, 0)),
        0x07 => Ok((Instruction::Xor(Some(p1), None), 1)),
        0x08 => Ok((Instruction::Xor(None, Some((p1, p2))), 2)),
        0x09 => Ok((Instruction::Xnor(Some(p1), None), 1)),
        0x0A => Ok((Instruction::Xnor(None, Some((p1, p2))), 2)),
        0x0B => Ok((Instruction::Or(Some(p1), None), 1)),
        0x0C => Ok((Instruction::Or(None, Some((p1, p2))), 2)),
        0x0D => Ok((Instruction::Nor(Some(p1), None), 1)),
        0x0E => Ok((Instruction::Nor(None, Some((p1, p2))), 2)),
        0x0F => Ok((Instruction::And(Some(p1), None), 1)),
        0x10 => Ok((Instruction::And(None, Some((p1, p2))), 2)),
        0x11 => Ok((Instruction::Nand(Some(p1), None), 1)),
        0x12 => Ok((Instruction::Nand(None, Some((p1, p2))), 2)),
        0x13 => Ok((Instruction::Not, 0)),
        0x14 => Ok((Instruction::RotateRight, 0)),
        0x15 => Ok((Instruction::RotateLeft, 0)),
        0x16 => Ok((Instruction::ShiftRight, 0)),
        0x17 => Ok((Instruction::ShiftLeft, 0)),
        0x21 => Ok((Instruction::PushRegisterToStack(p1), 1)),
        0x22 => Ok((Instruction::PopRegisterFromStack(p1), 1)),
        0x23 => Ok((Instruction::LoadAccumulator(Some(Address::new_absolute(p1, p2)), None), 2)),
        0x24 => Ok((Instruction::LoadAccumulator(Some(Address::new_indexed(p1, p2, p3)), None), 3)),
        0x25 => Ok((Instruction::LoadAccumulator(Some(Address::new_zeropage(p1)), None), 1)),
        0x26 => Ok((Instruction::LoadAccumulator(Some(Address::new_zeropage_indexed(p1, p2)), None), 2)),
        0x27 => Ok((Instruction::LoadAccumulator(None, Some(p1)), 1)),
        0x28 => Ok((Instruction::StoreAccumulator(Address::new_absolute(p1, p2)), 2)),
        0x29 => Ok((Instruction::StoreAccumulator(Address::new_indexed(p1, p2, p3)), 3)),
        0x2A => Ok((Instruction::StoreAccumulator(Address::new_zeropage(p1)), 1)),
        0x2B => Ok((Instruction::StoreAccumulator(Address::new_zeropage_indexed(p1, p2)), 2)),
        0x2C => Ok((Instruction::CopyAccumulatorToRegister(p1), 1)),
        0x2D => Ok((Instruction::CopyRegisterToAccumulator(p1), 1)),
        0x42 => Ok((Instruction::BranchCarrySet(Address::new_absolute(p1, p2)), 2)),
        0x43 => Ok((Instruction::BranchCarrySet(Address::new_indexed(p1, p2, p3)), 3)),
        0x44 => Ok((Instruction::BranchCarryClear(Address::new_absolute(p1, p2)), 2)),
        0x45 => Ok((Instruction::BranchCarryClear(Address::new_indexed(p1, p2, p3)), 3)),
        0x46 => Ok((Instruction::BranchNegative(Address::new_absolute(p1, p2)), 2)),
        0x47 => Ok((Instruction::BranchNegative(Address::new_indexed(p1, p2, p3)), 3)),
        0x48 => Ok((Instruction::BranchPositive(Address::new_absolute(p1, p2)), 2)),
        0x49 => Ok((Instruction::BranchPositive(Address::new_indexed(p1, p2, p3)), 3)),
        0x4A => Ok((Instruction::BranchEqual(p1, Address::new_absolute(p2, p3)), 3)),
        0x4B => Ok((Instruction::BranchEqual(p1, Address::new_indexed(p2, p3, p4)), 4)),
        0x4C => Ok((Instruction::BranchNotEqual(p1, Address::new_absolute(p2, p3)), 3)),
        0x4D => Ok((Instruction::BranchNotEqual(p1, Address::new_indexed(p2, p3, p4)), 4)),
        0x4E => Ok((Instruction::BranchZero(Address::new_absolute(p1, p2)), 2)),
        0x4F => Ok((Instruction::BranchZero(Address::new_indexed(p1, p2, p3)), 3)),
        0x50 => Ok((Instruction::BranchNotZero(Address::new_absolute(p1, p2)), 2)),
        0x51 => Ok((Instruction::BranchNotZero(Address::new_indexed(p1, p2, p3)), 3)),
        0x52 => Ok((Instruction::Jump(Address::new_absolute(p1, p2)), 2)),
        0x53 => Ok((Instruction::Jump(Address::new_indexed(p1, p2, p3)), 3)),
        0x54 => Ok((Instruction::PushProgramCounter, 0)),
        0x55 => Ok((Instruction::PopProgramCounter, 0)),
        0x57 => Ok((Instruction::PopProgramCounterSubroutine, 0)),
        0x58 => Ok((Instruction::BranchGreater(p1, Address::new_absolute(p2, p3)), 3)),
        0x59 => Ok((Instruction::BranchGreater(p1, Address::new_indexed(p2, p3, p4)), 4)),
        0x5A => Ok((Instruction::BranchLess(p1, Address::new_absolute(p2, p3)), 3)),
        0x5B => Ok((Instruction::BranchLess(p1, Address::new_indexed(p2, p3, p4)), 4)),
        _ => Err(DecodeError::UnknownOpcode(op)),
    }
}

/// Decodes the instruction at `program_counter`. On success returns it with the number of
/// operand bytes that follow the opcode. Operand bytes past the end of memory wrap to the start.
pub fn parse_instruction(memory: &[u8], program_counter: u16) -> (r: Result<(Instruction, u8), DecodeError>)
    requires
        memory@.len() == 65536,
    ensures
        r == decode_at(memory@, program_counter),
{
    let pc = program_counter as usize;
    let op = memory[pc];
    let p1 = memory[(pc + 1) % 65536];
    let p2 = memory[(pc + 2) % 65536];
    let p3 = memory[(pc + 3) % 65536];
    let p4 = memory[(pc + 4) % 65536];
    decode(op, p1, p2, p3, p4)
}

/// The bytes of a memory-operand instruction whose absolute form has opcode `base`;
/// the indexed, zero-page and zero-page-indexed forms follow it.
pub open spec fn address_bytes(base: u8, a: Address) -> Seq<u8> {
    match (a.zero_page, a.index) {
        (false, None) => seq![base, high_byte(a.address), low_byte(a.address)],
        (false, Some(i)) => seq![(base + 1) as u8, high_byte(a.address), low_byte(a.address), i],
        (true, None) => seq![(base + 2) as u8, low_byte(a.address)],
        (true, Some(i)) => seq![(base + 3) as u8, low_byte(a.address), i],
    }
}

/// The bytes of a flag-testing branch or a jump whose absolute form has opcode `base`.
pub open spec fn branch_bytes(base: u8, a: Address) -> Seq<u8> {
    match a.index {
        None => seq![base, high_byte(a.address), low_byte(a.address)],
        Some(i) => seq![(base + 1) as u8, high_byte(a.address), low_byte(a.address), i],
    }
}

/// The bytes of a register-comparing branch whose absolute form has opcode `base`.
pub open spec fn compare_branch_bytes(base: u8, r: u8, a: Address) -> Seq<u8> {
    match a.index {
        None => seq![base, r, high_byte(a.address), low_byte(a.address)],
        Some(i) => seq![(base + 1) as u8, r, high_byte(a.address), low_byte(a.address), i],
    }
}

/// The machine code of an instruction.
pub open spec fn encode_spec(i: Instruction) -> Seq<u8> {
    match i {
        Instruction::Noop => seq![0x00],
        Instruction::SetCarry => seq![0x05],
        Instruction::ClearCarry => seq![0x06],
        Instruction::Not => seq![0x13],
        Instruction::RotateRight => seq![0x14],
        Instruction::RotateLeft => seq![0x15],
        Instruction::ShiftRight => seq![0x16],
        Instruction::ShiftLeft => seq![0x17],
        Instruction::PushProgramCounter => seq![0x54],
        Instruction::PopProgramCounter => seq![0x55],
        Instruction::PopProgramCounterSubroutine => seq![0x57],
        Instruction::Add(one, two) => match (one, two) {
            (Some(r), _) => seq![0x01, r],
            (None, Some((r1, r2))) => seq![0x02, r1, r2],
            (None, None) => Seq::empty(),
        },
        Instruction::Subtract(one, two) => match (one, two) {
            (Some(r), _) => seq![0x03, r],
            (None, Some((r1, r2))) => seq![0x04, r1, r2],
            (None, None) => Seq::empty(),
        },
        Instruction::Xor(one, two) => match (one, two) {
            (Some(r), _) => seq![0x07, r],
            (None, Some((r1, r2))) => seq![0x08, r1, r2],
            (None, None) => Seq::empty(),
        },
        Instruction::Xnor(one, two) => match (one, two) {
            (Some(r), _) => seq![0x09, r],
            (None, Some((r1, r2))) => seq![0x0A, r1, r2],
            (None, None) => Seq::empty(),
        },
        Instruction::Or(one, two) => match (one, two) {
            (Some(r), _) => seq![0x0B, r],
            (None, Some((r1, r2))) => seq![0x0C, r1, r2],
            (None, None) => Seq::empty(),
        },
        Instruction::Nor(one, two) => match (one, two) {
            (Some(r), _) => seq![0x0D, r],
            (None, Some((r1, r2))) => seq![0x0E, r1, r2],
            (None, None) => Seq::empty(),
        },
        Instruction::And(one, two) => match (one, two) {
            (Some(r), _) => seq![0x0F, r],
            (None, Some((r1, r2))) => seq![0x10, r1, r2],
            (None, None) => Seq::empty(),
        },
        Instruction::Nand(one, two) => match (one, two) {
            (Some(r), _) => seq![0x11, r],
            (None, Some((r1, r2))) => seq![0x12, r1, r2],
            (None, None) => Seq::empty(),
        },
        Instruction::PushRegisterToStack(r) => seq![0x21, r],
        Instruction::PopRegisterFromStack(r) => seq![0x22, r],
        Instruction::CopyAccumulatorToRegister(r) => seq![0x2C, r],
        Instruction::CopyRegisterToAccumulator(r) => seq![0x2D, r],
        Instruction::LoadAccumulator(address, immediate) => match (address, immediate) {
            (Some(a), _) => address_bytes(0x23, a),
            (None, Some(v)) => seq![0x27, v],
            (None, None) => Seq::empty(),
        },
        Instruction::StoreAccumulator(a) => address_bytes(0x28, a),
        Instruction::BranchCarrySet(a) => branch_bytes(0x42, a),
        Instruction::BranchCarryClear(a) => branch_bytes(0x44, a),
        Instruction::BranchNegative(a) => branch_bytes(0x46, a),
        Instruction::BranchPositive(a) => branch_bytes(0x48, a),
        Instruction::BranchZero(a) => branch_bytes(0x4E, a),
        Instruction::BranchNotZero(a) => branch_bytes(0x50, a),
        Instruction::Jump(a) => branch_bytes(0x52, a),
        Instruction::BranchEqual(r, a) => compare_branch_bytes(0x4A, r, a),
        Instruction::BranchNotEqual(r, a) => compare_branch_bytes(0x4C, r, a),
        Instruction::BranchGreater(r, a) => compare_branch_bytes(0x58, r, a),
        Instruction::BranchLess(r, a) => compare_branch_bytes(0x5A, r, a),
    }
}

pub open spec fn register_ok(r: u8) -> bool {
    r < 8
}

pub open spec fn index_ok(index: Option<u8>) -> bool {
    match index {
        Some(i) => register_ok(i),
        None => true,
    }
}

/// A memory operand that has an encoding: a valid index register, and one address byte
/// only when the address fits in it.
pub open spec fn memory_operand_ok(a: Address) -> bool {
    index_ok(a.index) && (a.zero_page ==> a.address < 256)
}

/// A branch target that has an encoding: never zero-page.
pub open spec fn branch_target_ok(a: Address) -> bool {
    index_ok(a.index) && !a.zero_page
}

pub open spec fn alu_operands_ok(one: Option<u8>, two: Option<(u8, u8)>) -> bool {
    match (one, two) {
        (Some(r), _) => register_ok(r) && two.is_none(),
        (None, Some((r1, r2))) => register_ok(r1) && register_ok(r2),
        (None, None) => false,
    }
}

/// The instructions that have an encoding: valid registers, and address forms that fit.
pub open spec fn instruction_ok(i: Instruction) -> bool {
    match i {
        Instruction::Add(one, two) | Instruction::Subtract(one, two) | Instruction::Xor(one, two)
        | Instruction::Xnor(one, two) | Instruction::Or(one, two) | Instruction::Nor(one, two)
        | Instruction::And(one, two) | Instruction::Nand(one, two) => alu_operands_ok(one, two),
        Instruction::PushRegisterToStack(r) | Instruction::PopRegisterFromStack(r)
        | Instruction::CopyAccumulatorToRegister(r) | Instruction::CopyRegisterToAccumulator(r) => register_ok(r),
        Instruction::LoadAccumulator(address, immediate) => match (address, immediate) {
            (Some(a), None) => memory_operand_ok(a),
            (None, Some(_)) => true,
            _ => false,
        },
        Instruction::StoreAccumulator(a) => memory_operand_ok(a),
        Instruction::BranchCarrySet(a) | Instruction::BranchCarryClear(a) | Instruction::BranchNegative(a)
        | Instruction::BranchPositive(a) | Instruction::BranchZero(a) | Instruction::BranchNotZero(a)
        | Instruction::Jump(a) => branch_target_ok(a),
        Instruction::BranchEqual(r, a) | Instruction::BranchNotEqual(r, a) | Instruction::BranchGreater(r, a)
        | Instruction::BranchLess(r, a) => register_ok(r) && branch_target_ok(a),
        _ => true,
    }
}

/// A 16-bit value is stored high byte first, and reading the two bytes back gives the value.
pub proof fn lemma_big_endian(value: u16)
    ensures
        word_of(high_byte(value), low_byte(value)) == value,
        high_byte(value) as int == value as int / 256,
        low_byte(value) as int == value as int % 256,
{
}

pub open spec fn bad(r: u8) -> Option<u8> {
    if r < 8 { None } else { Some(r) }
}

pub open spec fn either(a: Option<u8>, b: Option<u8>) -> Option<u8> {
    if a is Some { a } else { b }
}

pub open spec fn bad_index(index: Option<u8>) -> Option<u8> {
    match index {
        Some(r) => bad(r),
        None => None,
    }
}

/// The first register operand of `i`, in operand order, that names none of the eight
/// registers.
pub open spec fn bad_register(i: Instruction) -> Option<u8> {
    match i {
        Instruction::Add(one, two) | Instruction::Subtract(one, two) | Instruction::Xor(one, two)
        | Instruction::Xnor(one, two) | Instruction::Or(one, two) | Instruction::Nor(one, two)
        | Instruction::And(one, two) | Instruction::Nand(one, two) => match (one, two) {
            (Some(r), _) => bad(r),
            (None, Some((a, b))) => either(bad(a), bad(b)),
            (None, None) => None,
        },
        Instruction::PushRegisterToStack(r) | Instruction::PopRegisterFromStack(r)
        | Instruction::CopyAccumulatorToRegister(r) | Instruction::CopyRegisterToAccumulator(r) => bad(r),
        Instruction::LoadAccumulator(address, _) => match address {
            Some(a) => bad_index(a.index),
            None => None,
        },
        Instruction::StoreAccumulator(a) | Instruction::BranchCarrySet(a) | Instruction::BranchCarryClear(a)
        | Instruction::BranchNegative(a) | Instruction::BranchPositive(a) | Instruction::BranchZero(a)
        | Instruction::BranchNotZero(a) | Instruction::Jump(a) => bad_index(a.index),
        Instruction::BranchEqual(r, a) | Instruction::BranchNotEqual(r, a) | Instruction::BranchGreater(r, a)
        | Instruction::BranchLess(r, a) => either(bad(r), bad_index(a.index)),
        _ => None,
    }
}

fn bad_exec(r: u8) -> (x: Option<u8>)
    ensures
        x == bad(r),
{
    if r < 8 { None } else { Some(r) }
}

fn bad_index_exec(index: Option<u8>) -> (x: Option<u8>)
    ensures
        x == bad_index(index),
{
    match index {
        Some(r) => bad_exec(r),
        None => None,
    }
}

/// The first register operand that names none of the eight registers; see `bad_register`.
pub fn register_check(i: &Instruction) -> (r: Option<u8>)
    ensures
        r == bad_register(*i),
{
    match *i {
        Instruction::Add(one, two) | Instruction::Subtract(one, two) | Instruction::Xor(one, two)
        | Instruction::Xnor(one, two) | Instruction::Or(one, two) | Instruction::Nor(one, two)
        | Instruction::And(one, two) | Instruction::Nand(one, two) => match (one, two) {
            (Some(r), _) => bad_exec(r),
            (None, Some((a, b))) => if a < 8 { bad_exec(b) } else { Some(a) },
            (None, None) => None,
        },
        Instruction::PushRegisterToStack(r) | Instruction::PopRegisterFromStack(r)
        | Instruction::CopyAccumulatorToRegister(r) | Instruction::CopyRegisterToAccumulator(r) => bad_exec(r),
        Instruction::LoadAccumulator(address, _) => match address {
            Some(a) => bad_index_exec(a.index),
            None => None,
        },
        Instruction::StoreAccumulator(a) | Instruction::BranchCarrySet(a) | Instruction::BranchCarryClear(a)
        | Instruction::BranchNegative(a) | Instruction::BranchPositive(a) | Instruction::BranchZero(a)
        | Instruction::BranchNotZero(a) | Instruction::Jump(a) => bad_index_exec(a.index),
        Instruction::BranchEqual(r, a) | Instruction::BranchNotEqual(r, a) | Instruction::BranchGreater(r, a)
        | Instruction::BranchLess(r, a) => if r < 8 { bad_index_exec(a.index) } else { Some(r) },
        _ => None,
    }
}

/// Decoding fails exactly on bytes that are not opcodes of the table.
pub proof fn lemma_decode_fails_only_on_unknown(op: u8, p1: u8, p2: u8, p3: u8, p4: u8)
    ensures
        decode_spec(op, p1, p2, p3, p4) is Err <==> !(op <= 0x17 || (0x21 <= op && op <= 0x2D) || (0x42 <= op && op
            <= 0x55) || (0x57 <= op && op <= 0x5B)),
        decode_spec(op, p1, p2, p3, p4) is Err ==> decode_spec(op, p1, p2, p3, p4) == Err::<(Instruction, u8), DecodeError>(
            DecodeError::UnknownOpcode(op),
        ),
{
}

/// An instruction has at most four operand bytes.
pub proof fn lemma_operand_count(op: u8, p1: u8, p2: u8, p3: u8, p4: u8)
    ensures
        match decode_spec(op, p1, p2, p3, p4) {
            Ok((_, n)) => n <= 4,
            Err(_) => true,
        },
{
}

/// The byte at position `k` of `bytes`, or zero past its end.
pub open spec fn byte_or_zero(bytes: Seq<u8>, k: int) -> u8 {
    if 0 <= k < bytes.len() { bytes[k] } else { 0 }
}

/// Decoding the encoding of an instruction gives back the instruction, and the count of
/// operand bytes is the encoding's length less the opcode.
pub proof fn lemma_decode_encode(i: Instruction)
    requires
        instruction_ok(i),
    ensures
        1 <= encode_spec(i).len() <= 5,
        decode_spec(
            byte_or_zero(encode_spec(i), 0),
            byte_or_zero(encode_spec(i), 1),
            byte_or_zero(encode_spec(i), 2),
            byte_or_zero(encode_spec(i), 3),
            byte_or_zero(encode_spec(i), 4),
        ) == Ok::<(Instruction, u8), DecodeError>((i, (encode_spec(i).len() - 1) as u8)),
{
    assert forall|x: u16| #[trigger] word_of(high_byte(x), low_byte(x)) == x by {}
    assert forall|x: u16| x < 256 implies #[trigger] low_byte(x) as u16 == x by {}
}

fn address_bytes_exec(base: u8, a: Address) -> (r: Vec<u8>)
    requires
        base <= 252,
    ensures
        r@ == address_bytes(base, a),
{
    let high = (a.address / 256) as u8;
    let low = (a.address % 256) as u8;
    match (a.zero_page, a.index) {
        (false, None) => vec![base, high, low],
        (false, Some(i)) => vec![base + 1, high, low, i],
        (true, None) => vec![base + 2, low],
        (true, Some(i)) => vec![base + 3, low, i],
    }
}

fn branch_bytes_exec(base: u8, a: Address) -> (r: Vec<u8>)
    requires
        base <= 254,
    ensures
        r@ == branch_bytes(base, a),
{
    let high = (a.address / 256) as u8;
    let low = (a.address % 256) as u8;
    match a.index {
        None => vec![base, high, low],
        Some(i) => vec![base + 1, high, low, i],
    }
}

fn compare_branch_bytes_exec(base: u8, r: u8, a: Address) -> (res: Vec<u8>)
    requires
        base <= 254,
    ensures
        res@ == compare_branch_bytes(base, r, a),
{
    let high = (a.address / 256) as u8;
    let low = (a.address % 256) as u8;
    match a.index {
        None => vec![base, r, high, low],
        Some(i) => vec![base + 1, r, high, low, i],
    }
}

/// The machine code of an instruction.
pub fn encode(i: &Instruction) -> (r: Vec<u8>)
    ensures
        r@ == encode_spec(*i),
{
    match *i {
        Instruction::Noop => vec![0x00],
        Instruction::SetCarry => vec![0x05],
        Instruction::ClearCarry => vec![0x06],
        Instruction::Not => vec![0x13],
        Instruction::RotateRight => vec![0x14],
        Instruction::RotateLeft => vec![0x15],
        Instruction::ShiftRight => vec![0x16],
        Instruction::ShiftLeft => vec![0x17],
        Instruction::PushProgramCounter => vec![0x54],
        Instruction::PopProgramCounter => vec![0x55],
        Instruction::PopProgramCounterSubroutine => vec![0x57],
        Instruction::Add(one, two) => match (one, two) {
            (Some(r), _) => vec![0x01, r],
            (None, Some((r1, r2))) => vec![0x02, r1, r2],
            (None, None) => Vec::new(),
        },
        Instruction::Subtract(one, two) => match (one, two) {
            (Some(r), _) => vec![0x03, r],
            (None, Some((r1, r2))) => vec![0x04, r1, r2],
            (None, None) => Vec::new(),
        },
        Instruction::Xor(one, two) => match (one, two) {
            (Some(r), _) => vec![0x07, r],
            (None, Some((r1, r2))) => vec![0x08, r1, r2],
            (None, None) => Vec::new(),
        },
        Instruction::Xnor(one, two) => match (one, two) {
            (Some(r), _) => vec![0x09, r],
            (None, Some((r1, r2))) => vec![0x0A, r1, r2],
            (None, None) => Vec::new(),
        },
        Instruction::Or(one, two) => match (one, two) {
            (Some(r), _) => vec![0x0B, r],
            (None, Some((r1, r2))) => vec![0x0C, r1, r2],
            (None, None) => Vec::new(),
        },
        Instruction::Nor(one, two) => match (one, two) {
            (Some(r), _) => vec![0x0D, r],
            (None, Some((r1, r2))) => vec![0x0E, r1, r2],
            (None, None) => Vec::new(),
        },
        Instruction::And(one, two) => match (one, two) {
            (Some(r), _) => vec![0x0F, r],
            (None, Some((r1, r2))) => vec![0x10, r1, r2],
            (None, None) => Vec::new(),
        },
        Instruction::Nand(one, two) => match (one, two) {
            (Some(r), _) => vec![0x11, r],
            (None, Some((r1, r2))) => vec![0x12, r1, r2],
            (None, None) => Vec::new(),
        },
        Instruction::PushRegisterToStack(r) => vec![0x21, r],
        Instruction::PopRegisterFromStack(r) => vec![0x22, r],
        Instruction::CopyAccumulatorToRegister(r) => vec![0x2C, r],
        Instruction::CopyRegisterToAccumulator(r) => vec![0x2D, r],
        Instruction::LoadAccumulator(address, immediate) => match (address, immediate) {
            (Some(a), _) => address_bytes_exec(0x23, a),
            (None, Some(v)) => vec![0x27, v],
            (None, None) => Vec::new(),
        },
        Instruction::StoreAccumulator(a) => address_bytes_exec(0x28, a),
        Instruction::BranchCarrySet(a) => branch_bytes_exec(0x42, a),
        Instruction::BranchCarryClear(a) => branch_bytes_exec(0x44, a),
        Instruction::BranchNegative(a) => branch_bytes_exec(0x46, a),
        Instruction::BranchPositive(a) => branch_bytes_exec(0x48, a),
        Instruction::BranchZero(a) => branch_bytes_exec(0x4E, a),
        Instruction::BranchNotZero(a) => branch_bytes_exec(0x50, a),
        Instruction::Jump(a) => branch_bytes_exec(0x52, a),
        Instruction::BranchEqual(r, a) => compare_branch_bytes_exec(0x4A, r, a),
        Instruction::BranchNotEqual(r, a) => compare_branch_bytes_exec(0x4C, r, a),
        Instruction::BranchGreater(r, a) => compare_branch_bytes_exec(0x58, r, a),
        Instruction::BranchLess(r, a) => compare_branch_bytes_exec(0x5A, r, a),
    }
}

} // verus!
