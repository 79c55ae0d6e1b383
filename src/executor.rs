//! The processor state and the execution of one instruction.

use vstd::prelude::*;
use crate::decoder::{
    Address, DecodeError, Instruction, bad_register, decode_at, index_ok, parse_instruction, register_check,
    word_of,
};

verus! {

pub const CARRY: u8 = 0x80;
pub const ZERO: u8 = 0x40;
pub const GREATER: u8 = 0x20;
pub const LESS: u8 = 0x10;
pub const EQUAL: u8 = 0x08;
pub const NEGATIVE: u8 = 0x04;

/// The value of the processor at one instant, as plain mathematical values.
pub struct ProcessorView {
    pub accumulator: u8,
    pub registers: Seq<u8>,
    pub status_register: u8,
    pub stack_pointer: u8,
    pub memory: Seq<u8>,
    pub program_counter: u16,
    pub operand1: u8,
    pub operand2: u8,
}

/// The simulated processor. Its memory covers the whole 16-bit address space; the stack
/// lives in page 1 and grows upward.
#[derive(Debug, Clone)]
pub struct Processor {
    pub accumulator: u8,
    pub registers: [u8; 8],
    pub status_register: u8,
    pub stack_pointer: u8,
    pub memory: Vec<u8>,
    pub program_counter: u16,
    pub operand1: u8,
    pub operand2: u8,
}

impl View for Processor {
    type V = ProcessorView;

    open spec fn view(&self) -> ProcessorView {
        ProcessorView {
            accumulator: self.accumulator,
            registers: self.registers@,
            status_register: self.status_register,
            stack_pointer: self.stack_pointer,
            memory: self.memory@,
            program_counter: self.program_counter,
            operand1: self.operand1,
            operand2: self.operand2,
        }
    }
}

pub open spec fn flag_set(status: u8, flag: u8) -> bool {
    status & flag != 0
}

/// Status after a two-operand comparison: carry kept, greater/less/equal from the operands,
/// zero and negative from the accumulator.
pub open spec fn compare_status(status: u8, accumulator: u8, operand1: u8, operand2: u8) -> u8 {
    (status & CARRY) | (if accumulator == 0 { ZERO } else { 0u8 }) | (if operand1 > operand2 {
        GREATER
    } else {
        0u8
    }) | (if operand1 < operand2 { LESS } else { 0u8 }) | (if operand1 == operand2 {
        EQUAL
    } else {
        0u8
    }) | (if accumulator >= 128 { NEGATIVE } else { 0u8 })
}

/// Status after an update with no operand: carry kept, greater/less/equal cleared, zero and
/// negative from the accumulator.
pub open spec fn plain_status(status: u8, accumulator: u8) -> u8 {
    (status & CARRY) | (if accumulator == 0 { ZERO } else { 0u8 }) | (if accumulator >= 128 {
        NEGATIVE
    } else {
        0u8
    })
}

pub open spec fn with_carry(status: u8, carry: bool) -> u8 {
    if carry { status | CARRY } else { status & !CARRY }
}

pub open spec fn carry_in(s: ProcessorView) -> int {
    if flag_set(s.status_register, CARRY) { 1 } else { 0 }
}

/// The effective address of a memory operand: the base plus the index register, modulo 2^16.
pub open spec fn effective_address(s: ProcessorView, a: Address) -> u16 {
    match a.index {
        Some(i) => ((a.address as int + s.registers[i as int] as int) % 65536) as u16,
        None => a.address,
    }
}

pub open spec fn stack_slot(sp: u8) -> int {
    0x100 + sp as int
}

pub open spec fn push_spec(s: ProcessorView, value: u8) -> ProcessorView {
    ProcessorView {
        memory: s.memory.update(stack_slot(s.stack_pointer), value),
        stack_pointer: ((s.stack_pointer as int + 1) % 256) as u8,
        ..s
    }
}

pub open spec fn pop_sp(s: ProcessorView) -> u8 {
    ((s.stack_pointer as int + 255) % 256) as u8
}

pub open spec fn pop_value(s: ProcessorView) -> u8 {
    s.memory[stack_slot(pop_sp(s))]
}

/// The register operands of an arithmetic or logic instruction name real registers.
pub open spec fn alu_registers_ok(one: Option<u8>, two: Option<(u8, u8)>) -> bool {
    match (one, two) {
        (Some(r), _) => r < 8,
        (None, Some((a, b))) => a < 8 && b < 8,
        (None, None) => true,
    }
}

/// The result of an arithmetic or logic operation on operands `a` and `b` as read.
pub open spec fn alu_spec(s: ProcessorView, result: u8, carry: Option<bool>, a: u8, b: u8) -> ProcessorView {
    let status = match carry {
        Some(c) => with_carry(s.status_register, c),
        None => s.status_register,
    };
    ProcessorView {
        accumulator: result,
        status_register: compare_status(status, result, a, b),
        operand1: a,
        operand2: b,
        ..s
    }
}

/// The sum with carry, in 16 bits: its low byte is the result and bit 8 the new carry.
pub open spec fn add_word(a: u8, b: u8, c: int) -> int {
    a as int + b as int + c
}

/// The difference plus carry, in 16 bits.
pub open spec fn sub_word(a: u8, b: u8, c: int) -> int {
    (a as int + 65536 - b as int + c) % 65536
}

pub open spec fn bit8(w: int) -> bool {
    (w / 256) % 2 == 1
}

pub open spec fn logic_spec(kind: int, a: u8, b: u8) -> u8 {
    if kind == 0 {
        a ^ b
    } else if kind == 1 {
        !(a ^ b)
    } else if kind == 2 {
        a | b
    } else if kind == 3 {
        !(a | b)
    } else if kind == 4 {
        a & b
    } else {
        !(a & b)
    }
}

pub open spec fn operands_of(s: ProcessorView, one: Option<u8>, two: Option<(u8, u8)>) -> (u8, u8) {
    match (one, two) {
        (Some(r), _) => (s.accumulator, s.registers[r as int]),
        (None, Some((r1, r2))) => (s.registers[r1 as int], s.registers[r2 as int]),
        (None, None) => (0, 0),
    }
}

pub open spec fn logic_op_spec(s: ProcessorView, kind: int, one: Option<u8>, two: Option<(u8, u8)>) -> ProcessorView {
    let (a, b) = operands_of(s, one, two);
    alu_spec(s, logic_spec(kind, a, b), None, a, b)
}

pub open spec fn accumulator_op_spec(s: ProcessorView, result: u8, carry: Option<bool>) -> ProcessorView {
    let status = match carry {
        Some(c) => with_carry(s.status_register, c),
        None => s.status_register,
    };
    ProcessorView {
        accumulator: result,
        status_register: plain_status(status, result),
        operand1: 0,
        operand2: 0,
        ..s
    }
}

pub open spec fn advance(s: ProcessorView, operand_bytes: u8) -> ProcessorView {
    ProcessorView { program_counter: ((s.program_counter as int + 1 + operand_bytes as int) % 65536) as u16, ..s }
}

pub open spec fn branch_spec(s: ProcessorView, taken: bool, target: Address, operand_bytes: u8) -> ProcessorView {
    if taken {
        ProcessorView { program_counter: effective_address(s, target), ..s }
    } else {
        advance(s, operand_bytes)
    }
}

/// A register-comparing branch: the status is updated from the accumulator and the register,
/// then `taken` decides on the updated state.
pub open spec fn compare_spec(s: ProcessorView, r: u8) -> ProcessorView {
    let a = s.accumulator;
    let b = s.registers[r as int];
    ProcessorView { status_register: compare_status(s.status_register, a, a, b), operand1: a, operand2: b, ..s }
}

/// The state after executing `i`, decoded with `n` operand bytes, in state `s`.
pub open spec fn execute_spec(s: ProcessorView, i: Instruction, n: u8) -> ProcessorView {
    match i {
        Instruction::Noop => advance(s, n),
        Instruction::Add(one, two) => {
            let (a, b) = operands_of(s, one, two);
            let w = add_word(a, b, carry_in(s));
            advance(alu_spec(s, (w % 256) as u8, Some(bit8(w)), a, b), n)
        },
        Instruction::Subtract(one, two) => {
            let (a, b) = operands_of(s, one, two);
            let w = sub_word(a, b, carry_in(s));
            advance(alu_spec(s, (w % 256) as u8, Some(bit8(w)), a, b), n)
        },
        Instruction::SetCarry => advance(ProcessorView { status_register: with_carry(s.status_register, true), ..s }, n),
        Instruction::ClearCarry => advance(ProcessorView { status_register: with_carry(s.status_register, false), ..s }, n),
        Instruction::Xor(one, two) => advance(logic_op_spec(s, 0, one, two), n),
        Instruction::Xnor(one, two) => advance(logic_op_spec(s, 1, one, two), n),
        Instruction::Or(one, two) => advance(logic_op_spec(s, 2, one, two), n),
        Instruction::Nor(one, two) => advance(logic_op_spec(s, 3, one, two), n),
        Instruction::And(one, two) => advance(logic_op_spec(s, 4, one, two), n),
        Instruction::Nand(one, two) => advance(logic_op_spec(s, 5, one, two), n),
        Instruction::Not => advance(accumulator_op_spec(s, !s.accumulator, None), n),
        Instruction::RotateRight => advance(
            accumulator_op_spec(s, (s.accumulator / 2 + (s.accumulator % 2) * 128) as u8, None),
            n,
        ),
        Instruction::RotateLeft => advance(
            accumulator_op_spec(s, ((s.accumulator * 2) % 256 + s.accumulator / 128) as u8, None),
            n,
        ),
        Instruction::ShiftRight => advance(
            accumulator_op_spec(
                s,
                (s.accumulator / 2 + carry_in(s) * 128) as u8,
                Some(s.accumulator % 2 == 1),
            ),
            n,
        ),
        Instruction::ShiftLeft => advance(
            accumulator_op_spec(
                s,
                ((s.accumulator * 2) % 256 + carry_in(s)) as u8,
                Some(s.accumulator >= 128),
            ),
            n,
        ),
        Instruction::PushRegisterToStack(r) => advance(push_spec(s, s.registers[r as int]), n),
        Instruction::PopRegisterFromStack(r) => advance(
            ProcessorView { stack_pointer: pop_sp(s), registers: s.registers.update(r as int, pop_value(s)), ..s },
            n,
        ),
        Instruction::LoadAccumulator(address, immediate) => match (address, immediate) {
            (Some(a), _) => advance(
                ProcessorView { accumulator: s.memory[effective_address(s, a) as int], ..s },
                n,
            ),
            (None, Some(v)) => advance(ProcessorView { accumulator: v, ..s }, n),
            (None, None) => advance(s, n),
        },
        Instruction::StoreAccumulator(a) => advance(
            ProcessorView { memory: s.memory.update(effective_address(s, a) as int, s.accumulator), ..s },
            n,
        ),
        Instruction::CopyAccumulatorToRegister(r) => advance(
            ProcessorView { registers: s.registers.update(r as int, s.accumulator), ..s },
            n,
        ),
        Instruction::CopyRegisterToAccumulator(r) => advance(accumulator_op_spec(s, s.registers[r as int], None), n),
        Instruction::BranchCarrySet(a) => branch_spec(s, flag_set(s.status_register, CARRY), a, n),
        Instruction::BranchCarryClear(a) => branch_spec(s, !flag_set(s.status_register, CARRY), a, n),
        Instruction::BranchNegative(a) => branch_spec(s, flag_set(s.status_register, NEGATIVE), a, n),
        Instruction::BranchPositive(a) => branch_spec(s, !flag_set(s.status_register, NEGATIVE), a, n),
        Instruction::BranchZero(a) => branch_spec(s, flag_set(s.status_register, ZERO), a, n),
        Instruction::BranchNotZero(a) => branch_spec(s, !flag_set(s.status_register, ZERO), a, n),
        Instruction::BranchEqual(r, a) => branch_spec(compare_spec(s, r), s.registers[r as int] == s.accumulator, a, n),
        Instruction::BranchNotEqual(r, a) => branch_spec(compare_spec(s, r), s.registers[r as int] != s.accumulator, a, n),
        Instruction::BranchGreater(r, a) => branch_spec(compare_spec(s, r), s.registers[r as int] > s.accumulator, a, n),
        Instruction::BranchLess(r, a) => branch_spec(compare_spec(s, r), s.registers[r as int] < s.accumulator, a, n),
        Instruction::Jump(a) => branch_spec(s, true, a, n),
        Instruction::PushProgramCounter => {
            let pc = s.program_counter;
            advance(push_spec(push_spec(s, (pc % 256) as u8), (pc / 256) as u8), n)
        },
        Instruction::PopProgramCounter => {
            let s1 = ProcessorView { stack_pointer: pop_sp(s), ..s };
            let high = pop_value(s);
            let low = pop_value(s1);
            advance(ProcessorView { stack_pointer: pop_sp(s1), program_counter: word_of(high, low), ..s }, n)
        },
        Instruction::PopProgramCounterSubroutine => {
            let s1 = ProcessorView { stack_pointer: pop_sp(s), ..s };
            let high = pop_value(s);
            let low = pop_value(s1);
            advance(
                ProcessorView {
                    stack_pointer: pop_sp(s1),
                    program_counter: ((word_of(high, low) as int + 3) % 65536) as u16,
                    ..s
                },
                n,
            )
        },
    }
}


fn calculate_address(address: Address, cpu: &Processor) -> (r: u16)
    requires
        index_ok(address.index),
    ensures
        r == effective_address(cpu@, address),
{
    match address.index {
        Some(i) => ((address.address as u32 + cpu.registers[i as usize] as u32) % 65536) as u16,
        None => address.address,
    }
}

fn logic(kind: u8, a: u8, b: u8) -> (r: u8)
    ensures
        r == logic_spec(kind as int, a, b),
{
    if kind == 0 {
        a ^ b
    } else if kind == 1 {
        !(a ^ b)
    } else if kind == 2 {
        a | b
    } else if kind == 3 {
        !(a | b)
    } else if kind == 4 {
        a & b
    } else {
        !(a & b)
    }
}

impl Processor {
    pub open spec fn wf(&self) -> bool {
        self.memory@.len() == 65536
    }

    /// The state at power-on: memory cleared, then a reset.
    pub fn new() -> (r: Processor)
        ensures
            r.wf(),
            r@.memory == Seq::new(65536, |i: int| 0u8),
            r@.accumulator == 0,
            r@.registers == seq![0u8; 8],
            r@.status_register == ZERO,
            r@.stack_pointer == 0,
            r@.program_counter == 0,
            r@.operand1 == 0,
            r@.operand2 == 0,
    {
        let mut cpu = Processor {
            accumulator: 0,
            registers: [0u8; 8],
            status_register: ZERO,
            stack_pointer: 0,
            memory: vec![0u8; 65536],
            program_counter: 0,
            operand1: 0,
            operand2: 0,
        };
        assert(cpu.memory@ =~= Seq::new(65536, |i: int| 0u8));
        cpu.reset();
        assert(cpu.registers@ =~= seq![0u8; 8]);
        cpu
    }

    /// Clears the accumulator, registers and stack pointer, sets the status to "zero", and
    /// loads the program counter from the big-endian reset vector at 0xFFFC..=0xFFFD.
    pub fn reset(&mut self)
        requires
            old(self).wf(),
        ensures
            final(self).wf(),
            final(self)@ == (ProcessorView {
                accumulator: 0,
                registers: Seq::new(8, |i: int| 0u8),
                status_register: ZERO,
                stack_pointer: 0,
                program_counter: word_of(old(self)@.memory[0xFFFC], old(self)@.memory[0xFFFD]),
                ..old(self)@
            }),
    {
        self.accumulator = 0;
        self.registers = [0u8; 8];
        self.status_register = ZERO;
        self.stack_pointer = 0;
        let high_byte = self.memory[0xFFFC];
        let low_byte = self.memory[0xFFFD];
        self.program_counter = (high_byte as u16) * 256 + (low_byte as u16);
        assert(self.registers@ =~= Seq::new(8, |i: int| 0u8));
    }

    fn push_stack(&mut self, value: u8)
        requires
            old(self).wf(),
        ensures
            final(self).wf(),
            final(self)@ == push_spec(old(self)@, value),
    {
        let slot = 0x100usize + self.stack_pointer as usize;
        self.memory.set(slot, value);
        self.stack_pointer = ((self.stack_pointer as u16 + 1) % 256) as u8;
    }

    fn pop_stack(&mut self) -> (r: u8)
        requires
            old(self).wf(),
        ensures
            final(self).wf(),
            r == pop_value(old(self)@),
            final(self)@ == (ProcessorView { stack_pointer: pop_sp(old(self)@), ..old(self)@ }),
    {
        self.stack_pointer = ((self.stack_pointer as u16 + 255) % 256) as u8;
        self.memory[0x100usize + self.stack_pointer as usize]
    }

    fn set_carry(&mut self, carry: bool)
        ensures
            final(self)@ == (ProcessorView {
                status_register: with_carry(old(self).status_register, carry),
                ..old(self)@
            }),
            final(self).memory == old(self).memory,
    {
        if carry {
            self.status_register = self.status_register | CARRY;
        } else {
            self.status_register = self.status_register & !CARRY;
        }
    }

    /// Compares two operands: greater, less and equal from them, zero and negative from the
    /// accumulator. The carry is left as it is; the operands are recorded.
    fn update_status_two_operands(&mut self, operand1: u8, operand2: u8)
        ensures
            final(self)@ == (ProcessorView {
                status_register: compare_status(old(self).status_register, old(self).accumulator, operand1, operand2),
                operand1: operand1,
                operand2: operand2,
                ..old(self)@
            }),
            final(self).memory == old(self).memory,
    {
        self.status_register = (self.status_register & CARRY) | (if self.accumulator == 0 { ZERO } else { 0u8 }) | (
        if operand1 > operand2 {
            GREATER
        } else {
            0u8
        }) | (if operand1 < operand2 { LESS } else { 0u8 }) | (if operand1 == operand2 {
            EQUAL
        } else {
            0u8
        }) | (if self.accumulator >= 128 { NEGATIVE } else { 0u8 });
        self.operand1 = operand1;
        self.operand2 = operand2;
    }

    /// Compares the accumulator against one operand, as the two-operand update does with the
    /// accumulator first. Records the operand as the first operand and zero as the second.
    pub fn update_status_one_operand(&mut self, other_operand: u8)
        ensures
            final(self)@ == (ProcessorView {
                status_register: compare_status(
                    old(self).status_register,
                    old(self).accumulator,
                    old(self).accumulator,
                    other_operand,
                ),
                operand1: other_operand,
                operand2: 0,
                ..old(self)@
            }),
            final(self).memory == old(self).memory,
    {
        let accumulator = self.accumulator;
        self.update_status_two_operands(accumulator, other_operand);
        self.operand1 = other_operand;
        self.operand2 = 0;
    }

    /// Clears greater, less and equal, sets zero and negative from the accumulator, and
    /// records no operands.
    fn update_status_no_operands(&mut self)
        ensures
            final(self)@ == (ProcessorView {
                status_register: plain_status(old(self).status_register, old(self).accumulator),
                operand1: 0,
                operand2: 0,
                ..old(self)@
            }),
            final(self).memory == old(self).memory,
    {
        self.status_register = (self.status_register & CARRY) | (if self.accumulator == 0 { ZERO } else { 0u8 }) | (
        if self.accumulator >= 128 {
            NEGATIVE
        } else {
            0u8
        });
        self.operand1 = 0;
        self.operand2 = 0;
    }

    fn operands(&self, one: Option<u8>, two: Option<(u8, u8)>) -> (r: (u8, u8))
        requires
            alu_registers_ok(one, two),
        ensures
            r == operands_of(self@, one, two),
    {
        match (one, two) {
            (Some(r), _) => (self.accumulator, self.registers[r as usize]),
            (None, Some((r1, r2))) => (self.registers[r1 as usize], self.registers[r2 as usize]),
            (None, None) => (0, 0),
        }
    }

    fn carry_value(&self) -> (r: u32)
        ensures
            r == carry_in(self@),
    {
        if self.status_register & CARRY != 0 { 1 } else { 0 }
    }

    /// Executes the instruction at the program counter. When the bytes there do not decode,
    /// returns the decode error; when the instruction names a register other than the eight,
    /// returns `InvalidRegister` with that register byte. Either way the state is unchanged.
    #[verifier::rlimit(50)]
    pub fn step(&mut self) -> (r: Result<(), DecodeError>)
        requires
            old(self).wf(),
        ensures
            final(self).wf(),
            match decode_at(old(self)@.memory, old(self).program_counter) {
                Ok((i, n)) => match bad_register(i) {
                    None => r is Ok && final(self)@ == execute_spec(old(self)@, i, n),
                    Some(b) => r == Err::<(), DecodeError>(DecodeError::InvalidRegister(b)) && final(self)@ == old(self)@,
                },
                Err(e) => r == Err::<(), DecodeError>(e) && final(self)@ == old(self)@,
            },
    {
        let decoded = parse_instruction(self.memory.as_slice(), self.program_counter);
        let (instruction, n) = match decoded {
            Ok(d) => d,
            Err(e) => return Err(e),
        };
        match register_check(&instruction) {
            Some(b) => return Err(DecodeError::InvalidRegister(b)),
            None => {},
        }
        match instruction {
            Instruction::Noop => {},
            Instruction::Add(one, two) => {
                let (a, b) = self.operands(one, two);
                let w: u32 = a as u32 + b as u32 + self.carry_value();
                self.set_carry(w / 256 % 2 == 1);
                self.accumulator = (w % 256) as u8;
                self.update_status_two_operands(a, b);
            },
            Instruction::Subtract(one, two) => {
                let (a, b) = self.operands(one, two);
                let w: u32 = (a as u32 + 65536 - b as u32 + self.carry_value()) % 65536;
                self.set_carry(w / 256 % 2 == 1);
                self.accumulator = (w % 256) as u8;
                self.update_status_two_operands(a, b);
            },
            Instruction::SetCarry => self.set_carry(true),
            Instruction::ClearCarry => self.set_carry(false),
            Instruction::Xor(one, two) => self.logic_op(0, one, two),
            Instruction::Xnor(one, two) => self.logic_op(1, one, two),
            Instruction::Or(one, two) => self.logic_op(2, one, two),
            Instruction::Nor(one, two) => self.logic_op(3, one, two),
            Instruction::And(one, two) => self.logic_op(4, one, two),
            Instruction::Nand(one, two) => self.logic_op(5, one, two),
            Instruction::Not => {
                self.accumulator = !self.accumulator;
                self.update_status_no_operands();
            },
            Instruction::RotateRight => {
                self.accumulator = self.accumulator / 2 + (self.accumulator % 2) * 128;
                self.update_status_no_operands();
            },
            Instruction::RotateLeft => {
                self.accumulator = ((self.accumulator as u16 * 2) % 256) as u8 + self.accumulator / 128;
                self.update_status_no_operands();
            },
            Instruction::ShiftRight => {
                let c = self.carry_value() as u8;
                let out = self.accumulator % 2 == 1;
                self.set_carry(out);
                self.accumulator = self.accumulator / 2 + c * 128;
                self.update_status_no_operands();
            },
            Instruction::ShiftLeft => {
                let c = self.carry_value() as u8;
                let out = self.accumulator >= 128;
                self.set_carry(out);
                self.accumulator = ((self.accumulator as u16 * 2) % 256) as u8 + c;
                self.update_status_no_operands();
            },
            Instruction::PushRegisterToStack(r) => {
                let v = self.registers[r as usize];
                self.push_stack(v);
            },
            Instruction::PopRegisterFromStack(r) => {
                let v = self.pop_stack();
                self.registers[r as usize] = v;
            },
            Instruction::LoadAccumulator(address, immediate) => {
                match (address, immediate) {
                    (Some(a), _) => {
                        let ea = calculate_address(a, self);
                        self.accumulator = self.memory[ea as usize];
                    },
                    (None, Some(v)) => {
                        self.accumulator = v;
                    },
                    (None, None) => {},
                }
            },
            Instruction::StoreAccumulator(a) => {
                let ea = calculate_address(a, self);
                let v = self.accumulator;
                self.memory.set(ea as usize, v);
            },
            Instruction::CopyAccumulatorToRegister(r) => {
                self.registers[r as usize] = self.accumulator;
            },
            Instruction::CopyRegisterToAccumulator(r) => {
                self.accumulator = self.registers[r as usize];
                self.update_status_no_operands();
            },
            Instruction::BranchCarrySet(a) => {
                if self.status_register & CARRY != 0 {
                    return self.jump(a);
                }
            },
            Instruction::BranchCarryClear(a) => {
                if self.status_register & CARRY == 0 {
                    return self.jump(a);
                }
            },
            Instruction::BranchNegative(a) => {
                if self.status_register & NEGATIVE != 0 {
                    return self.jump(a);
                }
            },
            Instruction::BranchPositive(a) => {
                if self.status_register & NEGATIVE == 0 {
                    return self.jump(a);
                }
            },
            Instruction::BranchZero(a) => {
                if self.status_register & ZERO != 0 {
                    return self.jump(a);
                }
            },
            Instruction::BranchNotZero(a) => {
                if self.status_register & ZERO == 0 {
                    return self.jump(a);
                }
            },
            Instruction::BranchEqual(r, a) => {
                let (acc, reg) = (self.accumulator, self.registers[r as usize]);
                self.update_status_two_operands(acc, reg);
                if reg == acc {
                    return self.jump(a);
                }
            },
            Instruction::BranchNotEqual(r, a) => {
                let (acc, reg) = (self.accumulator, self.registers[r as usize]);
                self.update_status_two_operands(acc, reg);
                if reg != acc {
                    return self.jump(a);
                }
            },
            Instruction::BranchGreater(r, a) => {
                let (acc, reg) = (self.accumulator, self.registers[r as usize]);
                self.update_status_two_operands(acc, reg);
                if reg > acc {
                    return self.jump(a);
                }
            },
            Instruction::BranchLess(r, a) => {
                let (acc, reg) = (self.accumulator, self.registers[r as usize]);
                self.update_status_two_operands(acc, reg);
                if reg < acc {
                    return self.jump(a);
                }
            },
            Instruction::Jump(a) => {
                return self.jump(a);
            },
            Instruction::PushProgramCounter => {
                let pc = self.program_counter;
                self.push_stack((pc % 256) as u8);
                self.push_stack((pc / 256) as u8);
            },
            Instruction::PopProgramCounter => {
                let high = self.pop_stack();
                let low = self.pop_stack();
                self.program_counter = (high as u16) * 256 + (low as u16);
            },
            Instruction::PopProgramCounterSubroutine => {
                let high = self.pop_stack();
                let low = self.pop_stack();
                self.program_counter = (((high as u32) * 256 + (low as u32) + 3) % 65536) as u16;
            },
        }
        self.program_counter = ((self.program_counter as u32 + 1 + n as u32) % 65536) as u16;
        Ok(())
    }

    fn logic_op(&mut self, kind: u8, one: Option<u8>, two: Option<(u8, u8)>)
        requires
            alu_registers_ok(one, two),
        ensures
            final(self)@ == logic_op_spec(old(self)@, kind as int, one, two),
            final(self).memory == old(self).memory,
    {
        let (a, b) = self.operands(one, two);
        self.accumulator = logic(kind, a, b);
        self.update_status_two_operands(a, b);
    }

    fn jump(&mut self, target: Address) -> (r: Result<(), DecodeError>)
        requires
            index_ok(target.index),
        ensures
            r is Ok,
            final(self)@ == (ProcessorView { program_counter: effective_address(old(self)@, target), ..old(self)@ }),
            final(self).memory == old(self).memory,
    {
        self.program_counter = calculate_address(target, self);
        Ok(())
    }
}

pub const SERIAL_OUT_DATA: usize = 0xFF00;
pub const SERIAL_OUT_READY: usize = 0xFF01;
pub const SERIAL_IN_DATA: usize = 0xFF08;
pub const SERIAL_IN_READY: usize = 0xFF09;
pub const SERIAL_IN_BUSY: usize = 0xFF0A;

/// The memory after the host's serial exchange, and what it saw: the byte the program sent,
/// if its strobe was set, and whether the offered byte was handed over.
pub open spec fn serial_spec(memory: Seq<u8>, incoming: Option<u8>, hold: bool) -> (Seq<u8>, Option<u8>, bool) {
    let sent = memory[SERIAL_OUT_READY as int] != 0;
    let m1 = if sent { memory.update(SERIAL_OUT_READY as int, 0) } else { memory };
    let out = if sent { Some(memory[SERIAL_OUT_DATA as int]) } else { None };
    let clear = m1[SERIAL_IN_READY as int] == 0 && m1[SERIAL_IN_BUSY as int] == 0 && !hold;
    match incoming {
        Some(b) => if clear {
            (m1.update(SERIAL_IN_DATA as int, b).update(SERIAL_IN_READY as int, 1), out, true)
        } else {
            (m1, out, false)
        },
        None => (m1, out, false),
    }
}

impl Processor {
    /// A processor whose memory starts with `image` (zero after it), then reset.
    pub fn with_image(image: &Vec<u8>) -> (r: Processor)
        requires
            image@.len() <= 65536,
        ensures
            r.wf(),
            r@.memory == Seq::new(65536, |k: int| if k < image@.len() { image@[k] } else { 0u8 }),
            r@.accumulator == 0,
            r@.registers == seq![0u8; 8],
            r@.status_register == ZERO,
            r@.stack_pointer == 0,
            r@.program_counter == word_of(r@.memory[0xFFFC], r@.memory[0xFFFD]),
            r@.operand1 == 0,
            r@.operand2 == 0,
    {
        let mut cpu = Processor::new();
        let mut k: usize = 0;
        assert forall|j: int| 0 <= j < 65536 implies #[trigger] cpu.memory@[j] == 0u8 by {
            assert(cpu@.memory[j] == 0u8);
        }
        while k < image.len()
            invariant
                k <= image@.len() <= 65536,
                cpu.wf(),
                cpu@.accumulator == 0,
                cpu@.registers == seq![0u8; 8],
                cpu@.status_register == ZERO,
                cpu@.stack_pointer == 0,
                cpu@.operand1 == 0,
                cpu@.operand2 == 0,
                forall|j: int| 0 <= j < 65536 ==> #[trigger] cpu.memory@[j] == if j < k { image@[j] } else { 0u8 },
            decreases image@.len() - k,
        {
            let ghost before = cpu.memory@;
            cpu.memory.set(k, image[k]);
            assert(cpu.memory@ == before.update(k as int, image@[k as int]));
            k = k + 1;
            assert forall|j: int| 0 <= j < 65536 implies #[trigger] cpu.memory@[j] == if j < k { image@[j] } else { 0u8 } by {
                if j != k - 1 {
                    assert(cpu.memory@[j] == before[j]);
                }
            }
        }
        cpu.reset();
        assert(cpu@.memory =~= Seq::new(65536, |j: int| if j < image@.len() { image@[j] } else { 0u8 }));
        assert(cpu.registers@ =~= seq![0u8; 8]);
        cpu
    }

    /// The host's side of the memory-mapped serial port, run after each step. When the
    /// program's output strobe is set, clears it and returns the output byte. When `incoming`
    /// holds a byte, the input strobe and the busy flag are clear, and `hold` is false, writes
    /// the byte to the input register and sets the strobe; the flag says whether it did.
    pub fn exchange_serial(&mut self, incoming: Option<u8>, hold: bool) -> (r: (Option<u8>, bool))
        requires
            old(self).wf(),
        ensures
            final(self).wf(),
            (final(self)@.memory, r.0, r.1) == serial_spec(old(self)@.memory, incoming, hold),
            final(self)@ == (ProcessorView { memory: final(self)@.memory, ..old(self)@ }),
    {
        let mut out: Option<u8> = None;
        if self.memory[SERIAL_OUT_READY] != 0 {
            self.memory.set(SERIAL_OUT_READY, 0);
            out = Some(self.memory[SERIAL_OUT_DATA]);
        }
        let mut delivered = false;
        if self.memory[SERIAL_IN_READY] == 0 && self.memory[SERIAL_IN_BUSY] == 0 && !hold {
            match incoming {
                Some(b) => {
                    self.memory.set(SERIAL_IN_DATA, b);
                    self.memory.set(SERIAL_IN_READY, 1);
                    delivered = true;
                },
                None => {},
            }
        }
        (out, delivered)
    }
}

/// Whether `t`'s stack holds the return address that a program-counter push made at `pc`
/// with stack pointer `sp`: the low byte at `sp`, the high byte above it, and the stack
/// pointer just past them.
pub open spec fn holds_return_address(t: ProcessorView, sp: u8, pc: u16) -> bool {
    &&& t.memory.len() == 65536
    &&& t.stack_pointer == ((sp as int + 2) % 256) as u8
    &&& t.memory[stack_slot(sp)] == (pc as int % 256) as u8
    &&& t.memory[stack_slot(((sp as int + 1) % 256) as u8)] == (pc as int / 256) as u8
}

/// The subroutine protocol. A call is a push of the program counter at `x` followed by a
/// three-byte jump. The push leaves the return address on the stack, and a subroutine return
/// executed while the stack is as the push left it resumes at `x + 4`, the byte after the
/// jump, with the stack pointer back where it was before the call.
pub proof fn lemma_call_returns(s: ProcessorView, t: ProcessorView)
    requires
        s.memory.len() == 65536,
        holds_return_address(t, s.stack_pointer, s.program_counter),
    ensures
        holds_return_address(
            execute_spec(s, Instruction::PushProgramCounter, 0),
            s.stack_pointer,
            s.program_counter,
        ),
        execute_spec(t, Instruction::PopProgramCounterSubroutine, 0).program_counter == ((s.program_counter as int
            + 4) % 65536) as u16,
        execute_spec(t, Instruction::PopProgramCounterSubroutine, 0).stack_pointer == s.stack_pointer,
{
    let sp = s.stack_pointer;
    let pc = s.program_counter;
    let first = push_spec(s, (pc as int % 256) as u8);
    let second = push_spec(first, (pc as int / 256) as u8);
    assert(stack_slot(sp) != stack_slot(((sp as int + 1) % 256) as u8));
    assert(second.memory[stack_slot(sp)] == (pc as int % 256) as u8);
    let t1 = ProcessorView { stack_pointer: pop_sp(t), ..t };
    assert(pop_sp(t) == ((sp as int + 1) % 256) as u8);
    assert(pop_sp(t1) == sp);
    assert(word_of(pop_value(t), pop_value(t1)) == pc);
}

impl Default for Processor {
    /// The power-on state; see `Processor::new`.
    fn default() -> (r: Processor)
        ensures
            r.wf(),
            r@.memory == Seq::new(65536, |i: int| 0u8),
            r@.accumulator == 0,
            r@.registers == seq![0u8; 8],
            r@.status_register == ZERO,
            r@.stack_pointer == 0,
            r@.program_counter == 0,
            r@.operand1 == 0,
            r@.operand2 == 0,
    {
        Processor::new()
    }
}

} // verus!
