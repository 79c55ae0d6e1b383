//! The assembler back end: places lowered instructions into a fixed-size image, records
//! label and address-constant references, and patches them once every definition is known.

use vstd::prelude::*;
use crate::decoder::{Instruction as M, encode, encode_spec};
use crate::decoder;
use crate::instruction::{Instruction, InstructionView, lower_all, lower_spec, preprocess, views};
use crate::operand::{AddressMode, AddressView, NonZeroPageAddress, NumberSize, Pointer, PointerAddress, Register, Address};
use crate::symbols::{Symbol, SymbolTable, SymbolTableView, SymbolType, SymbolView};

verus! {

/// A label and the byte offset it names.
#[derive(Clone, PartialEq, Debug)]
pub struct AssemblerLabel {
    pub name: String,
    pub address: u16,
}

/// A reference to a label: `index` is the low byte of the two reserved address bytes.
#[derive(Clone, PartialEq, Debug)]
pub struct AssemblerLabelUse {
    pub name: String,
    pub index: u16,
}

/// A reference to a named address constant: `index` is the low byte of the two reserved
/// address bytes.
#[derive(Clone, PartialEq, Debug)]
pub struct AssemblerPointerUse {
    pub pointer: Pointer,
    pub index: u16,
}

/// A named address constant and its address.
#[derive(Clone, PartialEq, Debug)]
pub struct AssemblerPointer {
    pub name: String,
    pub address: PointerAddress,
}

/// Why a program could not be assembled.
#[derive(Debug, Clone, PartialEq, Eq)]
pub enum AsmError {
    /// Code ran past the end of its segment, or onto a byte written before, at this offset
    /// (check the `.org`s).
    Overlap(usize),
    /// A write would go past the end of the image, at this offset.
    ImageOverflow(usize),
    /// An `.org` without address came before two `.org`s with one.
    MissingOrigin,
    /// An instruction that has no encoding: a bad register, an address mode that does not
    /// match its operand, a missing operand, or a subroutine form that was not lowered.
    InvalidInstruction,
    /// A reference to a label that is never defined.
    UndefinedLabel(String),
    /// A reference to the end of a subroutine that has no `rts`.
    MissingReturn(String),
    /// A reference to an address constant that is never defined.
    UndefinedPointer(String),
}

pub enum AsmErrorView {
    Overlap(usize),
    ImageOverflow(usize),
    MissingOrigin,
    InvalidInstruction,
    UndefinedLabel(Seq<char>),
    MissingReturn(Seq<char>),
    UndefinedPointer(Seq<char>),
}

impl View for AsmError {
    type V = AsmErrorView;

    open spec fn view(&self) -> AsmErrorView {
        match self {
            AsmError::Overlap(k) => AsmErrorView::Overlap(*k),
            AsmError::ImageOverflow(k) => AsmErrorView::ImageOverflow(*k),
            AsmError::MissingOrigin => AsmErrorView::MissingOrigin,
            AsmError::InvalidInstruction => AsmErrorView::InvalidInstruction,
            AsmError::UndefinedLabel(n) => AsmErrorView::UndefinedLabel(n@),
            AsmError::MissingReturn(n) => AsmErrorView::MissingReturn(n@),
            AsmError::UndefinedPointer(n) => AsmErrorView::UndefinedPointer(n@),
        }
    }
}

/// The machine form of a memory operand, when its mode agrees with its operand.
pub open spec fn address_machine(a: AddressView) -> Option<decoder::Address> {
    let v = a.address.value;
    let eight = a.address.size == NumberSize::EightBit;
    match (a.mode, a.index) {
        (AddressMode::Absolute, None) => if !eight {
            Some(decoder::Address { address: v, index: None, zero_page: false })
        } else {
            None
        },
        (AddressMode::Indexed, Some(r)) => if !eight && r.address < 8 {
            Some(decoder::Address { address: v, index: Some(r.address), zero_page: false })
        } else {
            None
        },
        (AddressMode::ZeroPage, None) => if eight && v < 256 {
            Some(decoder::Address { address: v, index: None, zero_page: true })
        } else {
            None
        },
        (AddressMode::ZeroPageIndexed, Some(r)) => if eight && v < 256 && r.address < 8 {
            Some(decoder::Address { address: v, index: Some(r.address), zero_page: true })
        } else {
            None
        },
        _ => None,
    }
}

/// The machine form of a branch target; a symbolic target is absolute with a zero placeholder.
pub open spec fn target_machine(target: Option<NonZeroPageAddress>, named: bool) -> Option<decoder::Address> {
    match target {
        Some(a) => match (a.mode, a.index) {
            (AddressMode::Absolute, None) => Some(decoder::Address { address: a.address.value, index: None, zero_page: false }),
            (AddressMode::Indexed, Some(r)) => if r.address < 8 {
                Some(decoder::Address { address: a.address.value, index: Some(r.address), zero_page: false })
            } else {
                None
            },
            _ => None,
        },
        None => if named {
            Some(decoder::Address { address: 0, index: None, zero_page: false })
        } else {
            None
        },
    }
}

pub open spec fn alu_machine(one: Option<Register>, two: Option<(Register, Register)>) -> Option<(Option<u8>, Option<(u8, u8)>)> {
    match (one, two) {
        (Some(r), _) => if r.address < 8 { Some((Some(r.address), None)) } else { None },
        (None, Some((a, b))) => if a.address < 8 && b.address < 8 {
            Some((None, Some((a.address, b.address))))
        } else {
            None
        },
        (None, None) => None,
    }
}

/// The machine instruction that a lowered source instruction is encoded as, if it is one
/// that emits code and is well formed.
pub open spec fn machine_spec(i: InstructionView) -> Option<M> {
    match i {
        InstructionView::Noop => Some(M::Noop),
        InstructionView::SetCarry => Some(M::SetCarry),
        InstructionView::ClearCarry => Some(M::ClearCarry),
        InstructionView::Not => Some(M::Not),
        InstructionView::RotateRight => Some(M::RotateRight),
        InstructionView::RotateLeft => Some(M::RotateLeft),
        InstructionView::ShiftRight => Some(M::ShiftRight),
        InstructionView::ShiftLeft => Some(M::ShiftLeft),
        InstructionView::PushProgramCounter => Some(M::PushProgramCounter),
        InstructionView::PopProgramCounter => Some(M::PopProgramCounter),
        InstructionView::PopProgramCounterSubroutine => Some(M::PopProgramCounterSubroutine),
        InstructionView::Add(one, two) => match alu_machine(one, two) {
            Some((o, t)) => Some(M::Add(o, t)),
            None => None,
        },
        InstructionView::Subtract(one, two) => match alu_machine(one, two) {
            Some((o, t)) => Some(M::Subtract(o, t)),
            None => None,
        },
        InstructionView::Xor(one, two) => match alu_machine(one, two) {
            Some((o, t)) => Some(M::Xor(o, t)),
            None => None,
        },
        InstructionView::Xnor(one, two) => match alu_machine(one, two) {
            Some((o, t)) => Some(M::Xnor(o, t)),
            None => None,
        },
        InstructionView::Or(one, two) => match alu_machine(one, two) {
            Some((o, t)) => Some(M::Or(o, t)),
            None => None,
        },
        InstructionView::Nor(one, two) => match alu_machine(one, two) {
            Some((o, t)) => Some(M::Nor(o, t)),
            None => None,
        },
        InstructionView::And(one, two) => match alu_machine(one, two) {
            Some((o, t)) => Some(M::And(o, t)),
            None => None,
        },
        InstructionView::Nand(one, two) => match alu_machine(one, two) {
            Some((o, t)) => Some(M::Nand(o, t)),
            None => None,
        },
        InstructionView::PushRegister(r) => if r.address < 8 { Some(M::PushRegisterToStack(r.address)) } else { None },
        InstructionView::PopRegister(r) => if r.address < 8 { Some(M::PopRegisterFromStack(r.address)) } else { None },
        InstructionView::CopyAccumulatorToRegister(r) => if r.address < 8 { Some(M::CopyAccumulatorToRegister(r.address)) } else { None },
        InstructionView::CopyRegisterToAccumulator(r) => if r.address < 8 { Some(M::CopyRegisterToAccumulator(r.address)) } else { None },
        InstructionView::LoadAccumulator(address, immediate) => match (address, immediate) {
            (Some(a), _) => match address_machine(a) {
                Some(m) => Some(M::LoadAccumulator(Some(m), None)),
                None => None,
            },
            (None, Some(v)) => Some(M::LoadAccumulator(None, Some((v.value.value as int % 256) as u8))),
            (None, None) => None,
        },
        InstructionView::StoreAccumulator(a) => match address_machine(a) {
            Some(m) => Some(M::StoreAccumulator(m)),
            None => None,
        },
        InstructionView::BranchIfCarrySet(target, label) => match target_machine(target, label.is_some()) {
            Some(a) => Some(M::BranchCarrySet(a)),
            None => None,
        },
        InstructionView::BranchIfCarryNotSet(target, label) => match target_machine(target, label.is_some()) {
            Some(a) => Some(M::BranchCarryClear(a)),
            None => None,
        },
        InstructionView::BranchIfNegative(target, label) => match target_machine(target, label.is_some()) {
            Some(a) => Some(M::BranchNegative(a)),
            None => None,
        },
        InstructionView::BranchIfPositive(target, label) => match target_machine(target, label.is_some()) {
            Some(a) => Some(M::BranchPositive(a)),
            None => None,
        },
        InstructionView::BranchIfZero(target, label) => match target_machine(target, label.is_some()) {
            Some(a) => Some(M::BranchZero(a)),
            None => None,
        },
        InstructionView::BranchIfNotZero(target, label) => match target_machine(target, label.is_some()) {
            Some(a) => Some(M::BranchNotZero(a)),
            None => None,
        },
        InstructionView::Jump(target, label) => match target_machine(target, label.is_some()) {
            Some(a) => Some(M::Jump(a)),
            None => None,
        },
        InstructionView::BranchIfEqual(r, target, label) => match target_machine(target, label.is_some()) {
            Some(a) => if r.address < 8 { Some(M::BranchEqual(r.address, a)) } else { None },
            None => None,
        },
        InstructionView::BranchIfNotEqual(r, target, label) => match target_machine(target, label.is_some()) {
            Some(a) => if r.address < 8 { Some(M::BranchNotEqual(r.address, a)) } else { None },
            None => None,
        },
        InstructionView::BranchIfGreater(r, target, label) => match target_machine(target, label.is_some()) {
            Some(a) => if r.address < 8 { Some(M::BranchGreater(r.address, a)) } else { None },
            None => None,
        },
        InstructionView::BranchIfLess(r, target, label) => match target_machine(target, label.is_some()) {
            Some(a) => if r.address < 8 { Some(M::BranchLess(r.address, a)) } else { None },
            None => None,
        },
        _ => None,
    }
}

fn address_machine_exec(a: &Address) -> (r: Option<decoder::Address>)
    ensures
        r == address_machine(a@),
{
    let v = a.address.value;
    let eight = a.address.size == NumberSize::EightBit;
    match (a.mode, a.index) {
        (AddressMode::Absolute, None) => if !eight {
            Some(decoder::Address { address: v, index: None, zero_page: false })
        } else {
            None
        },
        (AddressMode::Indexed, Some(r)) => if !eight && r.address < 8 {
            Some(decoder::Address { address: v, index: Some(r.address), zero_page: false })
        } else {
            None
        },
        (AddressMode::ZeroPage, None) => if eight && v < 256 {
            Some(decoder::Address { address: v, index: None, zero_page: true })
        } else {
            None
        },
        (AddressMode::ZeroPageIndexed, Some(r)) => if eight && v < 256 && r.address < 8 {
            Some(decoder::Address { address: v, index: Some(r.address), zero_page: true })
        } else {
            None
        },
        _ => None,
    }
}

fn target_machine_exec(target: Option<NonZeroPageAddress>, named: bool) -> (r: Option<decoder::Address>)
    ensures
        r == target_machine(target, named),
{
    match target {
        Some(a) => match (a.mode, a.index) {
            (AddressMode::Absolute, None) => Some(decoder::Address { address: a.address.value, index: None, zero_page: false }),
            (AddressMode::Indexed, Some(r)) => if r.address < 8 {
                Some(decoder::Address { address: a.address.value, index: Some(r.address), zero_page: false })
            } else {
                None
            },
            _ => None,
        },
        None => if named {
            Some(decoder::Address { address: 0, index: None, zero_page: false })
        } else {
            None
        },
    }
}

fn alu_machine_exec(one: Option<Register>, two: Option<(Register, Register)>) -> (r: Option<(Option<u8>, Option<(u8, u8)>)>)
    ensures
        r == alu_machine(one, two),
{
    match (one, two) {
        (Some(r), _) => if r.address < 8 { Some((Some(r.address), None)) } else { None },
        (None, Some((a, b))) => if a.address < 8 && b.address < 8 {
            Some((None, Some((a.address, b.address))))
        } else {
            None
        },
        (None, None) => None,
    }
}

fn machine_of(i: &Instruction) -> (r: Option<M>)
    ensures
        r == machine_spec(i@),
{
    match i {
        Instruction::Noop => Some(M::Noop),
        Instruction::SetCarry => Some(M::SetCarry),
        Instruction::ClearCarry => Some(M::ClearCarry),
        Instruction::Not => Some(M::Not),
        Instruction::RotateRight => Some(M::RotateRight),
        Instruction::RotateLeft => Some(M::RotateLeft),
        Instruction::ShiftRight => Some(M::ShiftRight),
        Instruction::ShiftLeft => Some(M::ShiftLeft),
        Instruction::PushProgramCounter => Some(M::PushProgramCounter),
        Instruction::PopProgramCounter => Some(M::PopProgramCounter),
        Instruction::PopProgramCounterSubroutine => Some(M::PopProgramCounterSubroutine),
        Instruction::Add(one, two) => match alu_machine_exec(*one, *two) {
            Some((o, t)) => Some(M::Add(o, t)),
            None => None,
        },
        Instruction::Subtract(one, two) => match alu_machine_exec(*one, *two) {
            Some((o, t)) => Some(M::Subtract(o, t)),
            None => None,
        },
        Instruction::Xor(one, two) => match alu_machine_exec(*one, *two) {
            Some((o, t)) => Some(M::Xor(o, t)),
            None => None,
        },
        Instruction::Xnor(one, two) => match alu_machine_exec(*one, *two) {
            Some((o, t)) => Some(M::Xnor(o, t)),
            None => None,
        },
        Instruction::Or(one, two) => match alu_machine_exec(*one, *two) {
            Some((o, t)) => Some(M::Or(o, t)),
            None => None,
        },
        Instruction::Nor(one, two) => match alu_machine_exec(*one, *two) {
            Some((o, t)) => Some(M::Nor(o, t)),
            None => None,
        },
        Instruction::And(one, two) => match alu_machine_exec(*one, *two) {
            Some((o, t)) => Some(M::And(o, t)),
            None => None,
        },
        Instruction::Nand(one, two) => match alu_machine_exec(*one, *two) {
            Some((o, t)) => Some(M::Nand(o, t)),
            None => None,
        },
        Instruction::PushRegister(r) => if r.address < 8 { Some(M::PushRegisterToStack(r.address)) } else { None },
        Instruction::PopRegister(r) => if r.address < 8 { Some(M::PopRegisterFromStack(r.address)) } else { None },
        Instruction::CopyAccumulatorToRegister(r) => if r.address < 8 { Some(M::CopyAccumulatorToRegister(r.address)) } else { None },
        Instruction::CopyRegisterToAccumulator(r) => if r.address < 8 { Some(M::CopyRegisterToAccumulator(r.address)) } else { None },
        Instruction::LoadAccumulator(address, immediate) => match (address, immediate) {
            (Some(a), _) => match address_machine_exec(a) {
                Some(m) => Some(M::LoadAccumulator(Some(m), None)),
                None => None,
            },
            (None, Some(v)) => Some(M::LoadAccumulator(None, Some((v.value.value % 256) as u8))),
            (None, None) => None,
        },
        Instruction::StoreAccumulator(a) => match address_machine_exec(a) {
            Some(m) => Some(M::StoreAccumulator(m)),
            None => None,
        },
        Instruction::BranchIfCarrySet(target, label) => match target_machine_exec(*target, label.is_some()) {
            Some(a) => Some(M::BranchCarrySet(a)),
            None => None,
        },
        Instruction::BranchIfCarryNotSet(target, label) => match target_machine_exec(*target, label.is_some()) {
            Some(a) => Some(M::BranchCarryClear(a)),
            None => None,
        },
        Instruction::BranchIfNegative(target, label) => match target_machine_exec(*target, label.is_some()) {
            Some(a) => Some(M::BranchNegative(a)),
            None => None,
        },
        Instruction::BranchIfPositive(target, label) => match target_machine_exec(*target, label.is_some()) {
            Some(a) => Some(M::BranchPositive(a)),
            None => None,
        },
        Instruction::BranchIfZero(target, label) => match target_machine_exec(*target, label.is_some()) {
            Some(a) => Some(M::BranchZero(a)),
            None => None,
        },
        Instruction::BranchIfNotZero(target, label) => match target_machine_exec(*target, label.is_some()) {
            Some(a) => Some(M::BranchNotZero(a)),
            None => None,
        },
        Instruction::Jump(target, label) => match target_machine_exec(*target, label.is_some()) {
            Some(a) => Some(M::Jump(a)),
            None => None,
        },
        Instruction::BranchIfEqual(r, target, label) => match target_machine_exec(*target, label.is_some()) {
            Some(a) => if r.address < 8 { Some(M::BranchEqual(r.address, a)) } else { None },
            None => None,
        },
        Instruction::BranchIfNotEqual(r, target, label) => match target_machine_exec(*target, label.is_some()) {
            Some(a) => if r.address < 8 { Some(M::BranchNotEqual(r.address, a)) } else { None },
            None => None,
        },
        Instruction::BranchIfGreater(r, target, label) => match target_machine_exec(*target, label.is_some()) {
            Some(a) => if r.address < 8 { Some(M::BranchGreater(r.address, a)) } else { None },
            None => None,
        },
        Instruction::BranchIfLess(r, target, label) => match target_machine_exec(*target, label.is_some()) {
            Some(a) => if r.address < 8 { Some(M::BranchLess(r.address, a)) } else { None },
            None => None,
        },
        _ => None,
    }
}

/// The encoder's state: the image and which of its bytes were written, the next write offset, the exclusive end of the current
/// segment, the stack of origins, and the definitions and references seen so far.
pub struct EncoderView {
    pub image: Seq<u8>,
    /// Which offsets of the image have been written.
    pub written: Seq<bool>,
    pub cursor: int,
    pub end: int,
    pub origins: Seq<u16>,
    pub labels: Seq<(Seq<char>, u16)>,
    pub label_uses: Seq<(Seq<char>, u16)>,
    pub pointers: Seq<(Seq<char>, PointerAddress)>,
    pub pointer_uses: Seq<(Seq<char>, u16)>,
}

/// The encoder at the start: an image of `size + 1` zero bytes, writing from offset 0, and a
/// single segment covering the whole image.
pub open spec fn initial_encoder(size: u16) -> EncoderView {
    EncoderView {
        image: Seq::new(size as nat + 1, |k: int| 0u8),
        written: Seq::new(size as nat + 1, |k: int| false),
        cursor: 0,
        end: size as int + 1,
        origins: Seq::empty(),
        labels: Seq::empty(),
        label_uses: Seq::empty(),
        pointers: Seq::empty(),
        pointer_uses: Seq::empty(),
    }
}

/// `image` with `bytes` written from offset `at`.
pub open spec fn write_at(image: Seq<u8>, at: int, bytes: Seq<u8>) -> Seq<u8> {
    Seq::new(image.len(), |k: int| if at <= k < at + bytes.len() { bytes[k - at] } else { image[k] })
}

/// `written` with the `n` offsets from `at` on marked.
pub open spec fn mark(written: Seq<bool>, at: int, n: int) -> Seq<bool> {
    Seq::new(written.len(), |k: int| if at <= k < at + n { true } else { written[k] })
}

/// The first offset in `i..end` that was already written.
pub open spec fn first_written(written: Seq<bool>, i: int, end: int) -> Option<int>
    decreases end - i,
{
    if i >= end {
        None
    } else if written[i] {
        Some(i)
    } else {
        first_written(written, i + 1, end)
    }
}

/// Writes `bytes` at the cursor and advances it. Fails when they do not fit in the image, and
/// when one of them would land on a byte written before (segments overlap): the error names
/// the first such offset.
pub open spec fn emit(st: EncoderView, bytes: Seq<u8>) -> Result<EncoderView, AsmErrorView> {
    if st.cursor + bytes.len() > st.image.len() {
        Err(AsmErrorView::ImageOverflow(st.cursor as usize))
    } else {
        match first_written(st.written, st.cursor, st.cursor + bytes.len()) {
            Some(k) => Err(AsmErrorView::Overlap(k as usize)),
            None => Ok(EncoderView {
                image: write_at(st.image, st.cursor, bytes),
                written: mark(st.written, st.cursor, bytes.len() as int),
                cursor: st.cursor + bytes.len(),
                ..st
            }),
        }
    }
}

/// The label that a branch, jump or call refers to by name, and the offset of the low address
/// byte from the start of the instruction.
pub open spec fn label_ref(i: InstructionView) -> Option<(Seq<char>, int)> {
    match i {
        InstructionView::BranchIfCarrySet(None, Some(l)) | InstructionView::BranchIfCarryNotSet(None, Some(l))
        | InstructionView::BranchIfNegative(None, Some(l)) | InstructionView::BranchIfPositive(None, Some(l))
        | InstructionView::BranchIfZero(None, Some(l)) | InstructionView::BranchIfNotZero(None, Some(l))
        | InstructionView::Jump(None, Some(l)) => Some((l, 2)),
        InstructionView::BranchIfEqual(_, None, Some(l)) | InstructionView::BranchIfNotEqual(_, None, Some(l))
        | InstructionView::BranchIfGreater(_, None, Some(l)) | InstructionView::BranchIfLess(_, None, Some(l)) => Some((l, 3)),
        _ => None,
    }
}

/// The address constant that a load or store refers to by name.
pub open spec fn pointer_ref(i: InstructionView) -> Option<Seq<char>> {
    match i {
        InstructionView::LoadAccumulator(Some(a), _) => a.pointer,
        InstructionView::StoreAccumulator(a) => a.pointer,
        _ => None,
    }
}

/// Emits the code of an instruction and records the references it makes.
pub open spec fn code_step(st: EncoderView, i: InstructionView) -> Result<EncoderView, AsmErrorView> {
    match machine_spec(i) {
        None => Err(AsmErrorView::InvalidInstruction),
        Some(m) => match emit(st, encode_spec(m)) {
            Err(e) => Err(e),
            Ok(s2) => Ok(EncoderView {
                label_uses: match label_ref(i) {
                    Some((name, offset)) => s2.label_uses.push((name, (st.cursor + offset) as u16)),
                    None => s2.label_uses,
                },
                pointer_uses: match pointer_ref(i) {
                    Some(name) => s2.pointer_uses.push((name, (st.cursor + 2) as u16)),
                    None => s2.pointer_uses,
                },
                ..s2
            }),
        },
    }
}

/// One lowered instruction, before the segment check.
pub open spec fn place_spec(st: EncoderView, i: InstructionView) -> Result<EncoderView, AsmErrorView> {
    match i {
        InstructionView::Label(name) => Ok(EncoderView { labels: st.labels.push((name, st.cursor as u16)), ..st }),
        InstructionView::Pointer(name, a) => Ok(EncoderView { pointers: st.pointers.push((name, a)), ..st }),
        InstructionView::Word(v) => emit(st, seq![(v.value.value as int % 256) as u8]),
        InstructionView::SetOrigin(Some(a)) => Ok(EncoderView {
            origins: st.origins.push(st.cursor as u16).push(a.address.value),
            cursor: a.address.value as int,
            ..st
        }),
        InstructionView::SetOrigin(None) => if st.origins.len() < 4 {
            Err(AsmErrorView::MissingOrigin)
        } else {
            Ok(EncoderView { cursor: st.origins[2] as int, end: st.origins[3] as int, ..st })
        },
        InstructionView::Subroutine(_) | InstructionView::JumpSubroutine(_, _) | InstructionView::ReturnFromSubroutine(_) => Err(
            AsmErrorView::InvalidInstruction,
        ),
        _ => code_step(st, i),
    }
}

/// One lowered instruction: placed, then the cursor must still lie inside its segment.
pub open spec fn step_spec(st: EncoderView, i: InstructionView) -> Result<EncoderView, AsmErrorView> {
    match place_spec(st, i) {
        Err(e) => Err(e),
        Ok(s2) => if s2.cursor < s2.end {
            Ok(s2)
        } else {
            Err(AsmErrorView::Overlap(s2.cursor as usize))
        },
    }
}

/// The encoder after the instructions `s`, in order, or the first error.
pub open spec fn encode_all(st: EncoderView, s: Seq<InstructionView>) -> Result<EncoderView, AsmErrorView>
    decreases s.len(),
{
    if s.len() == 0 {
        Ok(st)
    } else {
        match step_spec(st, s[0]) {
            Ok(s2) => encode_all(s2, s.drop_first()),
            Err(e) => Err(e),
        }
    }
}

struct Encoder {
    image: Vec<u8>,
    written: Vec<bool>,
    cursor: usize,
    end: usize,
    origins: Vec<u16>,
    labels: Vec<AssemblerLabel>,
    label_uses: Vec<AssemblerLabelUse>,
    pointers: Vec<AssemblerPointer>,
    pointer_uses: Vec<AssemblerPointerUse>,
}

pub open spec fn label_views(s: Seq<AssemblerLabel>) -> Seq<(Seq<char>, u16)> {
    s.map_values(|l: AssemblerLabel| (l.name@, l.address))
}

pub open spec fn label_use_views(s: Seq<AssemblerLabelUse>) -> Seq<(Seq<char>, u16)> {
    s.map_values(|l: AssemblerLabelUse| (l.name@, l.index))
}

pub open spec fn pointer_views(s: Seq<AssemblerPointer>) -> Seq<(Seq<char>, PointerAddress)> {
    s.map_values(|p: AssemblerPointer| (p.name@, p.address))
}

pub open spec fn pointer_use_views(s: Seq<AssemblerPointerUse>) -> Seq<(Seq<char>, u16)> {
    s.map_values(|p: AssemblerPointerUse| (p.pointer.name@, p.index))
}

impl View for Encoder {
    type V = EncoderView;

    closed spec fn view(&self) -> EncoderView {
        EncoderView {
            image: self.image@,
            written: self.written@,
            cursor: self.cursor as int,
            end: self.end as int,
            origins: self.origins@,
            labels: label_views(self.labels@),
            label_uses: label_use_views(self.label_uses@),
            pointers: pointer_views(self.pointers@),
            pointer_uses: pointer_use_views(self.pointer_uses@),
        }
    }
}

/// Writes `value` at `*index` and advances the index.
fn insert(array: &mut Vec<u8>, value: u8, index: &mut usize)
    requires
        *old(index) < old(array)@.len(),
    ensures
        final(array)@ == old(array)@.update(*old(index) as int, value),
        *final(index) == *old(index) + 1,
{
    let _n = array.len();
    array.set(*index, value);
    *index = *index + 1;
}

/// Writes `values` from `*index` on and advances the index past them.
fn append(array: &mut Vec<u8>, values: &Vec<u8>, index: &mut usize)
    requires
        *old(index) + values@.len() <= old(array)@.len(),
    ensures
        final(array)@ == write_at(old(array)@, *old(index) as int, values@),
        *final(index) == *old(index) + values@.len(),
{
    let ghost start = *index as int;
    let ghost initial = array@;
    let mut k: usize = 0;
    assert(array@ =~= write_at(initial, start, values@.take(0)));
    while k < values.len()
        invariant
            k <= values@.len(),
            start + values@.len() <= initial.len(),
            *index == start + k,
            array@ == write_at(initial, start, values@.take(k as int)),
        decreases values@.len() - k,
    {
        insert(array, values[k], index);
        k = k + 1;
        assert(array@ =~= write_at(initial, start, values@.take(k as int)));
    }
    assert(values@.take(k as int) =~= values@);
}

impl Encoder {
    spec fn wf(&self) -> bool {
        &&& self.image@.len() <= 65536
        &&& self.written@.len() == self.image@.len()
        &&& self.cursor < self.end <= 65536
    }

    fn new(size: u16) -> (r: Encoder)
        ensures
            r.wf(),
            r@ == initial_encoder(size),
    {
        let mut image: Vec<u8> = Vec::new();
        let n: usize = size as usize + 1;
        while image.len() < n
            invariant
                image@.len() <= n,
                forall|k: int| 0 <= k < image@.len() ==> image@[k] == 0u8,
            decreases n - image@.len(),
        {
            image.push(0);
        }
        let mut written: Vec<bool> = Vec::new();
        while written.len() < n
            invariant
                written@.len() <= n,
                forall|k: int| 0 <= k < written@.len() ==> !written@[k],
            decreases n - written@.len(),
        {
            written.push(false);
        }
        let r = Encoder {
            image,
            written,
            cursor: 0,
            end: n,
            origins: Vec::new(),
            labels: Vec::new(),
            label_uses: Vec::new(),
            pointers: Vec::new(),
            pointer_uses: Vec::new(),
        };
        assert(r@.image =~= initial_encoder(size).image);
        assert(r@.written =~= initial_encoder(size).written);
        assert(r@.labels =~= Seq::<(Seq<char>, u16)>::empty());
        assert(r@.label_uses =~= Seq::<(Seq<char>, u16)>::empty());
        assert(r@.pointers =~= Seq::<(Seq<char>, PointerAddress)>::empty());
        assert(r@.pointer_uses =~= Seq::<(Seq<char>, u16)>::empty());
        r
    }

    fn emit(&mut self, bytes: &Vec<u8>) -> (r: Result<(), AsmError>)
        requires
            old(self).wf(),
        ensures
            match emit(old(self)@, bytes@) {
                Ok(s) => r is Ok && final(self)@ == s,
                Err(e) => r matches Err(err) && err@ == e,
            },
            final(self).image@.len() == old(self).image@.len(),
            final(self).written@.len() == old(self).written@.len(),
            final(self).end == old(self).end,
            final(self).cursor >= old(self).cursor,
    {
        if self.cursor > self.image.len() || bytes.len() > self.image.len() - self.cursor {
            return Err(AsmError::ImageOverflow(self.cursor));
        }
        let start = self.cursor;
        let stop = start + bytes.len();
        let ghost w0 = self.written@;
        let mut i: usize = start;
        while i < stop
            invariant
                start <= i <= stop <= w0.len(),
                w0 == self.written@,
                self@ == old(self)@,
                self.cursor == start,
                stop == start + bytes@.len(),
                stop <= self.image@.len(),
                w0.len() == self.image@.len(),
                first_written(w0, start as int, stop as int) == first_written(w0, i as int, stop as int),
            decreases stop - i,
        {
            if self.written[i] {
                return Err(AsmError::Overlap(i));
            }
            i = i + 1;
        }
        append(&mut self.image, bytes, &mut self.cursor);
        let ghost after = self@;
        let mut j: usize = start;
        assert(self.written@ =~= mark(w0, start as int, 0));
        while j < stop
            invariant
                start <= j <= stop <= w0.len(),
                self.written@ == mark(w0, start as int, j - start),
                self@ == (EncoderView { written: self.written@, ..after }),
                self.image@.len() == w0.len(),
            decreases stop - j,
        {
            self.written.set(j, true);
            j = j + 1;
            assert(self.written@ =~= mark(w0, start as int, j - start));
        }
        Ok(())
    }
}

fn label_ref_exec(i: &Instruction) -> (r: Option<(String, usize)>)
    ensures
        match label_ref(i@) {
            Some((name, offset)) => r matches Some((n, o)) && n@ == name && o == offset,
            None => r is None,
        },
{
    match i {
        Instruction::BranchIfCarrySet(None, Some(l)) | Instruction::BranchIfCarryNotSet(None, Some(l))
        | Instruction::BranchIfNegative(None, Some(l)) | Instruction::BranchIfPositive(None, Some(l))
        | Instruction::BranchIfZero(None, Some(l)) | Instruction::BranchIfNotZero(None, Some(l))
        | Instruction::Jump(None, Some(l)) => Some((l.name.clone(), 2)),
        Instruction::BranchIfEqual(_, None, Some(l)) | Instruction::BranchIfNotEqual(_, None, Some(l))
        | Instruction::BranchIfGreater(_, None, Some(l)) | Instruction::BranchIfLess(_, None, Some(l)) => Some((l.name.clone(), 3)),
        _ => None,
    }
}

fn pointer_ref_exec(i: &Instruction) -> (r: Option<String>)
    ensures
        match pointer_ref(i@) {
            Some(name) => r matches Some(n) && n@ == name,
            None => r is None,
        },
{
    match i {
        Instruction::LoadAccumulator(Some(a), _) => match &a.pointer {
            Some(p) => Some(p.clone()),
            None => None,
        },
        Instruction::StoreAccumulator(a) => match &a.pointer {
            Some(p) => Some(p.clone()),
            None => None,
        },
        _ => None,
    }
}

impl Encoder {
    fn code(&mut self, i: &Instruction) -> (r: Result<(), AsmError>)
        requires
            old(self).wf(),
        ensures
            match code_step(old(self)@, i@) {
                Ok(s) => r is Ok && final(self)@ == s,
                Err(e) => r matches Err(err) && err@ == e,
            },
            final(self).image@.len() == old(self).image@.len(),
            final(self).written@.len() == old(self).written@.len(),
            final(self).end == old(self).end,
    {
        let m = match machine_of(i) {
            Some(m) => m,
            None => return Err(AsmError::InvalidInstruction),
        };
        let bytes = encode(&m);
        let start = self.cursor;
        let ghost before = self@;
        match self.emit(&bytes) {
            Ok(()) => {},
            Err(e) => return Err(e),
        }
        let ghost emitted = self@;
        match label_ref_exec(i) {
            Some((name, offset)) => {
                let ghost prev = label_use_views(self.label_uses@);
                self.label_uses.push(AssemblerLabelUse { name, index: (start + offset) as u16 });
                assert(label_use_views(self.label_uses@) =~= prev.push((name@, (start + offset) as u16)));
            },
            None => {},
        }
        match pointer_ref_exec(i) {
            Some(name) => {
                let ghost prev = pointer_use_views(self.pointer_uses@);
                let ghost n = name@;
                self.pointer_uses.push(AssemblerPointerUse { pointer: Pointer { name, address: None }, index: (start + 2) as u16 });
                assert(pointer_use_views(self.pointer_uses@) =~= prev.push((n, (start + 2) as u16)));
            },
            None => {},
        }
        Ok(())
    }

    /// Places one lowered instruction; see `step_spec`.
    fn step(&mut self, i: &Instruction) -> (r: Result<(), AsmError>)
        requires
            old(self).wf(),
        ensures
            match step_spec(old(self)@, i@) {
                Ok(s) => r is Ok && final(self)@ == s && final(self).wf(),
                Err(e) => r matches Err(err) && err@ == e,
            },
    {
        let ghost st = self@;
        match i {
            Instruction::Label(name) => {
                let ghost prev = label_views(self.labels@);
                self.labels.push(AssemblerLabel { name: name.clone(), address: self.cursor as u16 });
                assert(label_views(self.labels@) =~= prev.push((name@, self.cursor as u16)));
            },
            Instruction::Pointer(name, a) => {
                let ghost prev = pointer_views(self.pointers@);
                self.pointers.push(AssemblerPointer { name: name.clone(), address: *a });
                assert(pointer_views(self.pointers@) =~= prev.push((name@, *a)));
            },
            Instruction::Word(v) => {
                let bytes = vec![(v.value.value % 256) as u8];
                assert(bytes@ == seq![(v.value.value as int % 256) as u8]);
                match self.emit(&bytes) {
                    Ok(()) => {},
                    Err(e) => return Err(e),
                }
            },
            Instruction::SetOrigin(Some(a)) => {
                self.origins.push(self.cursor as u16);
                self.origins.push(a.address.value);
                self.cursor = a.address.value as usize;
            },
            Instruction::SetOrigin(None) => {
                if self.origins.len() < 4 {
                    return Err(AsmError::MissingOrigin);
                }
                self.cursor = self.origins[2] as usize;
                self.end = self.origins[3] as usize;
            },
            Instruction::Subroutine(_) | Instruction::JumpSubroutine(_, _) | Instruction::ReturnFromSubroutine(_) => {
                return Err(AsmError::InvalidInstruction);
            },
            _ => {
                assert(place_spec(st, i@) == code_step(st, i@));
                match self.code(i) {
                    Ok(()) => {},
                    Err(e) => return Err(e),
                }
            },
        }
        if self.cursor < self.end {
            Ok(())
        } else {
            Err(AsmError::Overlap(self.cursor))
        }
    }
}

/// The address of the first label named `name`.
pub open spec fn find_label(labels: Seq<(Seq<char>, u16)>, name: Seq<char>) -> Option<u16>
    decreases labels.len(),
{
    if labels.len() == 0 {
        None
    } else if labels[0].0 == name {
        Some(labels[0].1)
    } else {
        find_label(labels.drop_first(), name)
    }
}

/// The address of the first address constant named `name`.
pub open spec fn find_pointer(pointers: Seq<(Seq<char>, PointerAddress)>, name: Seq<char>) -> Option<PointerAddress>
    decreases pointers.len(),
{
    if pointers.len() == 0 {
        None
    } else if pointers[0].0 == name {
        Some(pointers[0].1)
    } else {
        find_pointer(pointers.drop_first(), name)
    }
}

pub open spec fn previous(k: u16) -> u16 {
    ((k as int + 65535) % 65536) as u16
}

/// The entry that resolving a label use adds: a subroutine entry one byte earlier when the
/// label starts a subroutine, a label entry at the use otherwise.
pub open spec fn label_use_symbol(t: SymbolTableView, name: Seq<char>, index: u16, address: u16) -> SymbolTableView {
    if crate::text::ends_with(name, crate::instruction::start_suffix()) {
        SymbolTableView {
            symbol_uses: t.symbol_uses.insert(previous(index), SymbolView { name, value: address, symbol_type: SymbolType::Subroutine }),
            ..t
        }
    } else {
        SymbolTableView {
            symbol_uses: t.symbol_uses.insert(index, SymbolView { name, value: address, symbol_type: SymbolType::Label }),
            ..t
        }
    }
}

/// The entry that a label definition adds: a subroutine one byte before its code, so that it
/// lands on the jump that skips the body; a plain label at its address.
pub open spec fn label_symbol(t: SymbolTableView, name: Seq<char>, address: u16) -> SymbolTableView {
    if crate::text::ends_with(name, crate::instruction::start_suffix()) {
        SymbolTableView {
            symbols: t.symbols.insert(previous(address), SymbolView { name, value: address, symbol_type: SymbolType::Subroutine }),
            ..t
        }
    } else {
        SymbolTableView {
            symbols: t.symbols.insert(address, SymbolView { name, value: address, symbol_type: SymbolType::Label }),
            ..t
        }
    }
}

pub open spec fn pointer_use_symbol(t: SymbolTableView, name: Seq<char>, index: u16, a: PointerAddress) -> SymbolTableView {
    SymbolTableView {
        symbol_uses: t.symbol_uses.insert(index, SymbolView { name, value: a.address.value, symbol_type: SymbolType::Pointer }),
        ..t
    }
}

pub open spec fn define_symbol(t: SymbolTableView, name: Seq<char>, a: PointerAddress) -> SymbolTableView {
    SymbolTableView {
        symbols: t.symbols.insert(a.address.value, SymbolView { name, value: a.address.value, symbol_type: SymbolType::Define }),
        ..t
    }
}

pub open spec fn missing_label(name: Seq<char>) -> AsmErrorView {
    if crate::text::ends_with(name, crate::instruction::end_suffix()) {
        AsmErrorView::MissingReturn(name)
    } else {
        AsmErrorView::UndefinedLabel(name)
    }
}

/// Writes each label use's address big-endian into the two bytes ending at its index, in
/// order, recording each in the table.
pub open spec fn resolve_labels(
    image: Seq<u8>,
    t: SymbolTableView,
    labels: Seq<(Seq<char>, u16)>,
    uses: Seq<(Seq<char>, u16)>,
) -> Result<(Seq<u8>, SymbolTableView), AsmErrorView>
    decreases uses.len(),
{
    if uses.len() == 0 {
        Ok((image, t))
    } else {
        let (name, index) = uses[0];
        match find_label(labels, name) {
            None => Err(missing_label(name)),
            Some(address) => if 1 <= index < image.len() {
                resolve_labels(
                    image.update(index - 1, (address as int / 256) as u8).update(index as int, (address as int % 256) as u8),
                    label_use_symbol(t, name, index, address),
                    labels,
                    uses.drop_first(),
                )
            } else {
                Err(AsmErrorView::ImageOverflow(index as usize))
            },
        }
    }
}

/// Writes each address-constant use into the image, in order: a 16-bit address big-endian
/// into the two bytes ending at the index; an 8-bit one into the first of them, with the
/// second spliced out of the image.
pub open spec fn resolve_pointers(
    image: Seq<u8>,
    t: SymbolTableView,
    pointers: Seq<(Seq<char>, PointerAddress)>,
    uses: Seq<(Seq<char>, u16)>,
) -> Result<(Seq<u8>, SymbolTableView), AsmErrorView>
    decreases uses.len(),
{
    if uses.len() == 0 {
        Ok((image, t))
    } else {
        let (name, index) = uses[0];
        match find_pointer(pointers, name) {
            None => Err(AsmErrorView::UndefinedPointer(name)),
            Some(a) => if 1 <= index < image.len() {
                let v = a.address.value;
                resolve_pointers(
                    if a.address.size == NumberSize::EightBit {
                        image.update(index - 1, (v as int % 256) as u8).remove(index as int)
                    } else {
                        image.update(index - 1, (v as int / 256) as u8).update(index as int, (v as int % 256) as u8)
                    },
                    pointer_use_symbol(t, name, index, a),
                    pointers,
                    uses.drop_first(),
                )
            } else {
                Err(AsmErrorView::ImageOverflow(index as usize))
            },
        }
    }
}

pub open spec fn define_labels(t: SymbolTableView, labels: Seq<(Seq<char>, u16)>) -> SymbolTableView
    decreases labels.len(),
{
    if labels.len() == 0 {
        t
    } else {
        define_labels(label_symbol(t, labels[0].0, labels[0].1), labels.drop_first())
    }
}

pub open spec fn define_pointers(t: SymbolTableView, pointers: Seq<(Seq<char>, PointerAddress)>) -> SymbolTableView
    decreases pointers.len(),
{
    if pointers.len() == 0 {
        t
    } else {
        define_pointers(define_symbol(t, pointers[0].0, pointers[0].1), pointers.drop_first())
    }
}

pub open spec fn empty_table() -> SymbolTableView {
    SymbolTableView { symbols: Map::empty(), symbol_uses: Map::empty() }
}

/// The image and symbol table for a program, or the first error: the program is lowered,
/// placed instruction by instruction, then label uses and address-constant uses are resolved
/// and every definition entered in the table.
pub open spec fn assemble_spec(instructions: Seq<InstructionView>, size: u16) -> Result<(Seq<u8>, SymbolTableView), AsmErrorView> {
    match encode_all(initial_encoder(size), lower_all(instructions)) {
        Err(e) => Err(e),
        Ok(st) => match resolve_labels(st.image, empty_table(), st.labels, st.label_uses) {
            Err(e) => Err(e),
            Ok((image, t)) => match resolve_pointers(image, t, st.pointers, st.pointer_uses) {
                Err(e) => Err(e),
                Ok((image2, t2)) => Ok((image2, define_pointers(define_labels(t2, st.labels), st.pointers))),
            },
        },
    }
}

fn find_label_exec(labels: &Vec<AssemblerLabel>, name: &String) -> (r: Option<usize>)
    ensures
        match find_label(label_views(labels@), name@) {
            Some(a) => r matches Some(k) && k < labels@.len() && labels@[k as int].address == a && labels@[k as int].name@ == name@,
            None => r is None,
        },
{
    let ghost all = label_views(labels@);
    let mut k: usize = 0;
    assert(all.skip(0) =~= all);
    while k < labels.len()
        invariant
            k <= labels@.len(),
            all == label_views(labels@),
            find_label(all, name@) == find_label(all.skip(k as int), name@),
        decreases labels@.len() - k,
    {
        assert(all.skip(k as int)[0] == (labels@[k as int].name@, labels@[k as int].address));
        if labels[k].name == *name {
            return Some(k);
        }
        assert(all.skip(k as int).drop_first() =~= all.skip(k + 1));
        k = k + 1;
    }
    None
}

fn find_pointer_exec(pointers: &Vec<AssemblerPointer>, name: &String) -> (r: Option<usize>)
    ensures
        match find_pointer(pointer_views(pointers@), name@) {
            Some(a) => r matches Some(k) && k < pointers@.len() && pointers@[k as int].address == a && pointers@[k as int].name@ == name@,
            None => r is None,
        },
{
    let ghost all = pointer_views(pointers@);
    let mut k: usize = 0;
    assert(all.skip(0) =~= all);
    while k < pointers.len()
        invariant
            k <= pointers@.len(),
            all == pointer_views(pointers@),
            find_pointer(all, name@) == find_pointer(all.skip(k as int), name@),
        decreases pointers@.len() - k,
    {
        assert(all.skip(k as int)[0] == (pointers@[k as int].name@, pointers@[k as int].address));
        if pointers[k].name == *name {
            return Some(k);
        }
        assert(all.skip(k as int).drop_first() =~= all.skip(k + 1));
        k = k + 1;
    }
    None
}

fn missing_label_exec(name: &String) -> (r: AsmError)
    ensures
        r@ == missing_label(name@),
{
    let chars = crate::text::chars_of(name.as_str());
    if crate::text::ends_with_text(&chars, "_EndSubroutine") {
        AsmError::MissingReturn(name.clone())
    } else {
        AsmError::UndefinedLabel(name.clone())
    }
}

/// Patches every label use in `image`; see `resolve_labels`.
fn resolve_label_uses(
    image: &mut Vec<u8>,
    table: &mut SymbolTable,
    labels: &Vec<AssemblerLabel>,
    uses: &Vec<AssemblerLabelUse>,
) -> (r: Result<(), AsmError>)
    ensures
        match resolve_labels(old(image)@, old(table)@, label_views(labels@), label_use_views(uses@)) {
            Ok((i, t)) => r is Ok && final(image)@ == i && final(table)@ == t,
            Err(e) => r matches Err(err) && err@ == e,
        },
{
    let ghost all = label_use_views(uses@);
    let ghost target = resolve_labels(image@, table@, label_views(labels@), all);
    assert(target == resolve_labels(old(image)@, old(table)@, label_views(labels@), label_use_views(uses@)));
    let mut j: usize = 0;
    assert(all.skip(0) =~= all);
    while j < uses.len()
        invariant
            j <= uses@.len(),
            all == label_use_views(uses@),
            target == resolve_labels(old(image)@, old(table)@, label_views(labels@), all),
            target == resolve_labels(image@, table@, label_views(labels@), all.skip(j as int)),
        decreases uses@.len() - j,
    {
        let u = &uses[j];
        assert(all.skip(j as int)[0] == (u.name@, u.index));
        assert(all.skip(j as int).drop_first() =~= all.skip(j + 1));
        match find_label_exec(labels, &u.name) {
            None => {
                let e = missing_label_exec(&u.name);
                assert(target == Err::<(Seq<u8>, SymbolTableView), AsmErrorView>(e@));
                return Err(e);
            },
            Some(li) => {
                let address = labels[li].address;
                let index = u.index;
                if index < 1 || index as usize >= image.len() {
                    assert(target == Err::<(Seq<u8>, SymbolTableView), AsmErrorView>(AsmErrorView::ImageOverflow(index as usize)));
                    return Err(AsmError::ImageOverflow(index as usize));
                }
                image.set(index as usize - 1, (address / 256) as u8);
                image.set(index as usize, (address % 256) as u8);
                table.add_label_use(
                    AssemblerLabelUse { name: u.name.clone(), index },
                    AssemblerLabel { name: labels[li].name.clone(), address },
                );
            },
        }
        j = j + 1;
    }
    assert(all.skip(j as int) =~= Seq::<(Seq<char>, u16)>::empty());
    Ok(())
}

/// Patches every address-constant use in `image`; see `resolve_pointers`.
fn resolve_pointer_uses(
    image: &mut Vec<u8>,
    table: &mut SymbolTable,
    pointers: &Vec<AssemblerPointer>,
    uses: &Vec<AssemblerPointerUse>,
) -> (r: Result<(), AsmError>)
    ensures
        match resolve_pointers(old(image)@, old(table)@, pointer_views(pointers@), pointer_use_views(uses@)) {
            Ok((i, t)) => r is Ok && final(image)@ == i && final(table)@ == t,
            Err(e) => r matches Err(err) && err@ == e,
        },
{
    let ghost all = pointer_use_views(uses@);
    let ghost target = resolve_pointers(image@, table@, pointer_views(pointers@), all);
    let mut j: usize = 0;
    assert(all.skip(0) =~= all);
    while j < uses.len()
        invariant
            j <= uses@.len(),
            all == pointer_use_views(uses@),
            target == resolve_pointers(old(image)@, old(table)@, pointer_views(pointers@), all),
            target == resolve_pointers(image@, table@, pointer_views(pointers@), all.skip(j as int)),
        decreases uses@.len() - j,
    {
        let u = &uses[j];
        assert(all.skip(j as int)[0] == (u.pointer.name@, u.index));
        assert(all.skip(j as int).drop_first() =~= all.skip(j + 1));
        match find_pointer_exec(pointers, &u.pointer.name) {
            None => {
                return Err(AsmError::UndefinedPointer(u.pointer.name.clone()));
            },
            Some(pi) => {
                let a = pointers[pi].address;
                let v = a.address.value;
                let index = u.index;
                if index < 1 || index as usize >= image.len() {
                    return Err(AsmError::ImageOverflow(index as usize));
                }
                if a.address.size == NumberSize::EightBit {
                    image.set(index as usize - 1, (v % 256) as u8);
                    image.remove(index as usize);
                } else {
                    image.set(index as usize - 1, (v / 256) as u8);
                    image.set(index as usize, (v % 256) as u8);
                }
                table.add_define_use(
                    AssemblerPointerUse { pointer: Pointer { name: u.pointer.name.clone(), address: None }, index },
                    AssemblerPointer { name: pointers[pi].name.clone(), address: a },
                );
            },
        }
        j = j + 1;
    }
    assert(all.skip(j as int) =~= Seq::<(Seq<char>, u16)>::empty());
    Ok(())
}

fn define_all(table: &mut SymbolTable, labels: &Vec<AssemblerLabel>, pointers: &Vec<AssemblerPointer>)
    ensures
        final(table)@ == define_pointers(define_labels(old(table)@, label_views(labels@)), pointer_views(pointers@)),
{
    let ghost all = label_views(labels@);
    let ghost target = define_labels(table@, all);
    let mut j: usize = 0;
    assert(all.skip(0) =~= all);
    while j < labels.len()
        invariant
            j <= labels@.len(),
            all == label_views(labels@),
            target == define_labels(old(table)@, all),
            target == define_labels(table@, all.skip(j as int)),
        decreases labels@.len() - j,
    {
        assert(all.skip(j as int)[0] == (labels@[j as int].name@, labels@[j as int].address));
        assert(all.skip(j as int).drop_first() =~= all.skip(j + 1));
        table.add_label(AssemblerLabel { name: labels[j].name.clone(), address: labels[j].address });
        j = j + 1;
    }
    assert(all.skip(j as int) =~= Seq::<(Seq<char>, u16)>::empty());
    let ghost ps = pointer_views(pointers@);
    let ghost target2 = define_pointers(table@, ps);
    let mut j: usize = 0;
    assert(ps.skip(0) =~= ps);
    while j < pointers.len()
        invariant
            j <= pointers@.len(),
            ps == pointer_views(pointers@),
            target == define_labels(old(table)@, all),
            target2 == define_pointers(target, ps),
            target2 == define_pointers(table@, ps.skip(j as int)),
        decreases pointers@.len() - j,
    {
        assert(ps.skip(j as int)[0] == (pointers@[j as int].name@, pointers@[j as int].address));
        assert(ps.skip(j as int).drop_first() =~= ps.skip(j + 1));
        table.add_define(AssemblerPointer { name: pointers[j].name.clone(), address: pointers[j].address });
        j = j + 1;
    }
    assert(ps.skip(j as int) =~= Seq::<(Seq<char>, PointerAddress)>::empty());
}

/// Assembles a program into an image of `size + 1` bytes and its symbol table; see
/// `assemble_spec`.
pub fn assemble(instructions: Vec<Instruction>, size: u16) -> (r: Result<(Vec<u8>, SymbolTable), AsmError>)
    ensures
        match assemble_spec(views(instructions@), size) {
            Ok((image, t)) => r matches Ok((i2, t2)) && i2@ == image && t2@ == t,
            Err(e) => r matches Err(err) && err@ == e,
        },
{
    let lowered = preprocess(instructions);
    let ghost program = views(lowered@);
    let mut enc = Encoder::new(size);
    let mut k: usize = 0;
    assert(program.skip(0) =~= program);
    while k < lowered.len()
        invariant
            k <= lowered@.len(),
            program == views(lowered@),
            program == lower_all(views(instructions@)),
            enc.wf(),
            encode_all(initial_encoder(size), program) == encode_all(enc@, program.skip(k as int)),
        decreases lowered@.len() - k,
    {
        assert(program.skip(k as int)[0] == lowered@[k as int]@);
        assert(program.skip(k as int).drop_first() =~= program.skip(k + 1));
        match enc.step(&lowered[k]) {
            Ok(()) => {},
            Err(e) => {
                return Err(e);
            },
        }
        k = k + 1;
    }
    assert(program.skip(k as int) =~= Seq::<InstructionView>::empty());
    let ghost st = enc@;
    let Encoder { image, written: _, cursor: _, end: _, origins: _, labels, label_uses, pointers, pointer_uses } = enc;
    let mut image = image;
    let mut table = SymbolTable::new();
    assert(table@ =~= empty_table());
    match resolve_label_uses(&mut image, &mut table, &labels, &label_uses) {
        Ok(()) => {},
        Err(e) => {
            return Err(e);
        },
    }
    match resolve_pointer_uses(&mut image, &mut table, &pointers, &pointer_uses) {
        Ok(()) => {},
        Err(e) => {
            return Err(e);
        },
    }
    define_all(&mut table, &labels, &pointers);
    Ok((image, table))
}

proof fn lemma_machine_ok(i: InstructionView)
    ensures
        match machine_spec(i) {
            Some(m) => decoder::instruction_ok(m),
            None => true,
        },
{
    match i {
        InstructionView::Noop => {},
        InstructionView::Add(..) => {},
        InstructionView::Subtract(..) => {},
        InstructionView::SetCarry => {},
        InstructionView::ClearCarry => {},
        InstructionView::Xor(..) => {},
        InstructionView::Xnor(..) => {},
        InstructionView::Or(..) => {},
        InstructionView::Nor(..) => {},
        InstructionView::And(..) => {},
        InstructionView::Nand(..) => {},
        InstructionView::Not => {},
        InstructionView::RotateRight => {},
        InstructionView::RotateLeft => {},
        InstructionView::ShiftRight => {},
        InstructionView::ShiftLeft => {},
        InstructionView::PushRegister(..) => {},
        InstructionView::PopRegister(..) => {},
        InstructionView::LoadAccumulator(..) => {},
        InstructionView::StoreAccumulator(..) => {},
        InstructionView::CopyAccumulatorToRegister(..) => {},
        InstructionView::CopyRegisterToAccumulator(..) => {},
        InstructionView::BranchIfCarrySet(..) => {},
        InstructionView::BranchIfCarryNotSet(..) => {},
        InstructionView::BranchIfNegative(..) => {},
        InstructionView::BranchIfPositive(..) => {},
        InstructionView::BranchIfEqual(..) => {},
        InstructionView::BranchIfNotEqual(..) => {},
        InstructionView::BranchIfZero(..) => {},
        InstructionView::BranchIfNotZero(..) => {},
        InstructionView::BranchIfGreater(..) => {},
        InstructionView::BranchIfLess(..) => {},
        InstructionView::Jump(..) => {},
        _ => {},
    }
}

/// What the assembler emits decodes back to what it meant: whenever a lowered instruction
/// has a machine form, that form is one the decoder accepts, its encoding is one to five
/// bytes, and decoding them gives the machine form and the count of operand bytes.
pub proof fn lemma_emitted_code_decodes(i: InstructionView)
    ensures
        match machine_spec(i) {
            Some(m) => {
                &&& decoder::instruction_ok(m)
                &&& 1 <= encode_spec(m).len() <= 5
                &&& decoder::decode_spec(
                    decoder::byte_or_zero(encode_spec(m), 0),
                    decoder::byte_or_zero(encode_spec(m), 1),
                    decoder::byte_or_zero(encode_spec(m), 2),
                    decoder::byte_or_zero(encode_spec(m), 3),
                    decoder::byte_or_zero(encode_spec(m), 4),
                ) == Ok::<(M, u8), decoder::DecodeError>((m, (encode_spec(m).len() - 1) as u8))
            },
            None => true,
        },
{
    match machine_spec(i) {
        Some(m) => {
            lemma_machine_ok(i);
            decoder::lemma_decode_encode(m);
        },
        None => {},
    }
}

/// Every address constant that `p` defines is 16 bits wide.
pub open spec fn wide_program(p: Seq<InstructionView>) -> bool {
    forall|k: int|
        0 <= k < p.len() ==> match #[trigger] p[k] {
            InstructionView::Pointer(_, a) => a.address.size == NumberSize::SixteenBit,
            _ => true,
        }
}

pub open spec fn wide_definitions(p: Seq<(Seq<char>, PointerAddress)>) -> bool {
    forall|k: int| 0 <= k < p.len() ==> (#[trigger] p[k]).1.address.size == NumberSize::SixteenBit
}

proof fn lemma_lowering_keeps_wide(p: Seq<InstructionView>)
    requires
        wide_program(p),
    ensures
        wide_program(lower_all(p)),
    decreases p.len(),
{
    if p.len() > 0 {
        let front = p.drop_last();
        assert(wide_program(front)) by {
            assert forall|k: int| 0 <= k < front.len() implies match #[trigger] front[k] {
                InstructionView::Pointer(_, a) => a.address.size == NumberSize::SixteenBit,
                _ => true,
            } by {
                assert(front[k] == p[k]);
            }
        }
        lemma_lowering_keeps_wide(front);
        let last = lower_spec(p.last());
        assert(p.last() == p[p.len() - 1]);
        let all = lower_all(front) + last;
        assert(lower_all(p) == all);
        assert forall|k: int| 0 <= k < all.len() implies match #[trigger] all[k] {
            InstructionView::Pointer(_, a) => a.address.size == NumberSize::SixteenBit,
            _ => true,
        } by {
            if k < lower_all(front).len() {
                assert(all[k] == lower_all(front)[k]);
            } else {
                assert(all[k] == last[k - lower_all(front).len()]);
            }
        }
    }
}

proof fn lemma_step_keeps_length(st: EncoderView, i: InstructionView)
    requires
        wide_definitions(st.pointers),
        match i {
            InstructionView::Pointer(_, a) => a.address.size == NumberSize::SixteenBit,
            _ => true,
        },
    ensures
        match step_spec(st, i) {
            Ok(s2) => s2.image.len() == st.image.len() && wide_definitions(s2.pointers),
            Err(_) => true,
        },
{
    match step_spec(st, i) {
        Ok(s2) => {
            match i {
                InstructionView::Pointer(name, a) => {
                    assert forall|k: int| 0 <= k < s2.pointers.len() implies (#[trigger] s2.pointers[k]).1.address.size
                        == NumberSize::SixteenBit by {
                        if k < st.pointers.len() {
                            assert(s2.pointers[k] == st.pointers[k]);
                        }
                    }
                },
                _ => {
                    assert(s2.pointers == st.pointers);
                },
            }
        },
        Err(_) => {},
    }
}

proof fn lemma_encode_all_keeps_length(st: EncoderView, p: Seq<InstructionView>)
    requires
        wide_definitions(st.pointers),
        wide_program(p),
    ensures
        match encode_all(st, p) {
            Ok(s2) => s2.image.len() == st.image.len() && wide_definitions(s2.pointers),
            Err(_) => true,
        },
    decreases p.len(),
{
    if p.len() > 0 {
        lemma_step_keeps_length(st, p[0]);
        match step_spec(st, p[0]) {
            Ok(s2) => {
                let rest = p.drop_first();
                assert(wide_program(rest)) by {
                    assert forall|k: int| 0 <= k < rest.len() implies match #[trigger] rest[k] {
                        InstructionView::Pointer(_, a) => a.address.size == NumberSize::SixteenBit,
                        _ => true,
                    } by {
                        assert(rest[k] == p[k + 1]);
                    }
                }
                lemma_encode_all_keeps_length(s2, rest);
            },
            Err(_) => {},
        }
    }
}

proof fn lemma_labels_keep_length(
    image: Seq<u8>,
    t: SymbolTableView,
    labels: Seq<(Seq<char>, u16)>,
    uses: Seq<(Seq<char>, u16)>,
)
    ensures
        match resolve_labels(image, t, labels, uses) {
            Ok((i2, _)) => i2.len() == image.len(),
            Err(_) => true,
        },
    decreases uses.len(),
{
    if uses.len() > 0 {
        let (name, index) = uses[0];
        match find_label(labels, name) {
            Some(address) => if 1 <= index < image.len() {
                lemma_labels_keep_length(
                    image.update(index - 1, (address as int / 256) as u8).update(index as int, (address as int % 256) as u8),
                    label_use_symbol(t, name, index, address),
                    labels,
                    uses.drop_first(),
                );
            },
            None => {},
        }
    }
}

proof fn lemma_found_pointer_wide(p: Seq<(Seq<char>, PointerAddress)>, name: Seq<char>)
    requires
        wide_definitions(p),
    ensures
        match find_pointer(p, name) {
            Some(a) => a.address.size == NumberSize::SixteenBit,
            None => true,
        },
    decreases p.len(),
{
    if p.len() > 0 && p[0].0 != name {
        let rest = p.drop_first();
        assert(wide_definitions(rest)) by {
            assert forall|k: int| 0 <= k < rest.len() implies (#[trigger] rest[k]).1.address.size == NumberSize::SixteenBit by {
                assert(rest[k] == p[k + 1]);
            }
        }
        lemma_found_pointer_wide(rest, name);
    }
}

proof fn lemma_pointers_keep_length(
    image: Seq<u8>,
    t: SymbolTableView,
    pointers: Seq<(Seq<char>, PointerAddress)>,
    uses: Seq<(Seq<char>, u16)>,
)
    requires
        wide_definitions(pointers),
    ensures
        match resolve_pointers(image, t, pointers, uses) {
            Ok((i2, _)) => i2.len() == image.len(),
            Err(_) => true,
        },
    decreases uses.len(),
{
    if uses.len() > 0 {
        let (name, index) = uses[0];
        lemma_found_pointer_wide(pointers, name);
        match find_pointer(pointers, name) {
            Some(a) => if 1 <= index < image.len() {
                let v = a.address.value;
                lemma_pointers_keep_length(
                    image.update(index - 1, (v as int / 256) as u8).update(index as int, (v as int % 256) as u8),
                    pointer_use_symbol(t, name, index, a),
                    pointers,
                    uses.drop_first(),
                );
            },
            None => {},
        }
    }
}

/// An assembled image has exactly `size + 1` bytes, when every address constant the program
/// defines is 16 bits wide (an 8-bit one has its placeholder's second byte spliced out).
pub proof fn lemma_image_size(instructions: Seq<InstructionView>, size: u16)
    requires
        wide_program(instructions),
    ensures
        match assemble_spec(instructions, size) {
            Ok((image, _)) => image.len() == size as int + 1,
            Err(_) => true,
        },
{
    lemma_lowering_keeps_wide(instructions);
    let st0 = initial_encoder(size);
    lemma_encode_all_keeps_length(st0, lower_all(instructions));
    match encode_all(st0, lower_all(instructions)) {
        Ok(st) => {
            lemma_labels_keep_length(st.image, empty_table(), st.labels, st.label_uses);
            match resolve_labels(st.image, empty_table(), st.labels, st.label_uses) {
                Ok((image, t)) => {
                    lemma_pointers_keep_length(image, t, st.pointers, st.pointer_uses);
                },
                Err(_) => {},
            }
        },
        Err(_) => {},
    }
}

/// A jump to a label, placed where nothing was written yet, emits the absolute-jump opcode
/// and two zero placeholder bytes at the cursor, and records a use of the label whose index
/// is the site plus two.
pub proof fn lemma_jump_to_label(st: EncoderView, label: Seq<char>)
    requires
        0 <= st.cursor,
        st.cursor + 3 <= st.image.len(),
        forall|k: int| st.cursor <= k < st.cursor + 3 ==> !st.written[k],
    ensures
        code_step(st, InstructionView::Jump(None, Some(label))) matches Ok(s2) && {
            &&& s2.image[st.cursor] == 0x52
            &&& s2.image[st.cursor + 1] == 0
            &&& s2.image[st.cursor + 2] == 0
            &&& s2.cursor == st.cursor + 3
            &&& s2.label_uses == st.label_uses.push((label, (st.cursor + 2) as u16))
        },
{
    let m = M::Jump(decoder::Address { address: 0, index: None, zero_page: false });
    assert(machine_spec(InstructionView::Jump(None, Some(label))) == Some(m));
    assert(encode_spec(m) == seq![0x52u8, 0u8, 0u8]);
    assert(first_written(st.written, st.cursor + 3, st.cursor + 3) is None);
    assert(first_written(st.written, st.cursor + 2, st.cursor + 3) is None);
    assert(first_written(st.written, st.cursor + 1, st.cursor + 3) is None);
    assert(first_written(st.written, st.cursor, st.cursor + 3) is None);
}

/// Resolving a use of a plain label (not a subroutine start) found at address `k` writes
/// `k >> 8` and `k & 0xFF` into the two bytes ending at the use's index, and records a
/// label entry at that index, before the remaining uses are resolved.
pub proof fn lemma_label_use_resolved(
    image: Seq<u8>,
    t: SymbolTableView,
    labels: Seq<(Seq<char>, u16)>,
    name: Seq<char>,
    index: u16,
    rest: Seq<(Seq<char>, u16)>,
    k: u16,
)
    requires
        find_label(labels, name) == Some(k),
        1 <= index < image.len(),
        !crate::text::ends_with(name, crate::instruction::start_suffix()),
    ensures
        resolve_labels(image, t, labels, seq![(name, index)] + rest) == resolve_labels(
            image.update(index - 1, (k as int / 256) as u8).update(index as int, (k as int % 256) as u8),
            SymbolTableView {
                symbol_uses: t.symbol_uses.insert(index, SymbolView { name, value: k, symbol_type: SymbolType::Label }),
                ..t
            },
            labels,
            rest,
        ),
{
    let uses = seq![(name, index)] + rest;
    assert(uses[0] == (name, index));
    assert(uses.drop_first() =~= rest);
}

/// `b` still holds every byte that `a` had written, unchanged.
pub open spec fn keeps_written(a: EncoderView, b: EncoderView) -> bool {
    &&& b.image.len() == a.image.len()
    &&& b.written.len() == a.written.len()
    &&& b.cursor >= 0
    &&& forall|k: int| 0 <= k < a.image.len() && #[trigger] a.written[k] ==> b.written[k] && b.image[k] == a.image[k]
}

proof fn lemma_first_written_none(w: Seq<bool>, i: int, end: int)
    requires
        first_written(w, i, end) is None,
    ensures
        forall|k: int| i <= k < end ==> !w[k],
    decreases end - i,
{
    if i < end {
        lemma_first_written_none(w, i + 1, end);
    }
}

proof fn lemma_step_keeps_written(st: EncoderView, i: InstructionView)
    requires
        st.written.len() == st.image.len(),
        st.cursor >= 0,
    ensures
        match step_spec(st, i) {
            Ok(s2) => keeps_written(st, s2),
            Err(_) => true,
        },
{
    let bytes = match i {
        InstructionView::Word(v) => seq![(v.value.value as int % 256) as u8],
        _ => match machine_spec(i) {
            Some(m) => encode_spec(m),
            None => Seq::empty(),
        },
    };
    if st.cursor + bytes.len() <= st.image.len() && first_written(st.written, st.cursor, st.cursor + bytes.len()) is None {
        lemma_first_written_none(st.written, st.cursor, st.cursor + bytes.len());
    }
}

/// No byte is written twice: once the encoder has written a byte of the image, every later
/// instruction leaves it written and unchanged (a write onto it is an overlap error).
pub proof fn lemma_written_bytes_stay(st: EncoderView, p: Seq<InstructionView>)
    requires
        st.written.len() == st.image.len(),
        st.cursor >= 0,
    ensures
        match encode_all(st, p) {
            Ok(s2) => keeps_written(st, s2),
            Err(_) => true,
        },
    decreases p.len(),
{
    if p.len() > 0 {
        lemma_step_keeps_written(st, p[0]);
        match step_spec(st, p[0]) {
            Ok(s2) => {
                lemma_written_bytes_stay(s2, p.drop_first());
            },
            Err(_) => {},
        }
    }
}

} // verus!
