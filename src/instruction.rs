//! Source-level instructions as the parser produces them, and the lowering of subroutine
//! blocks into plain jumps, labels and stack operations.

use vstd::prelude::*;
use crate::operand::{Address, AddressView, Immediate, Label, NonZeroPageAddress, PointerAddress, Register, Subroutine};

verus! {

/// One instruction or directive of a source file. Branches, jumps and calls carry either an
/// address or a symbolic name.
#[derive(Debug, Clone, PartialEq, Eq)]
pub enum Instruction {
    Noop,
    Add(Option<Register>, Option<(Register, Register)>),
    Subtract(Option<Register>, Option<(Register, Register)>),
    SetCarry,
    ClearCarry,
    Xor(Option<Register>, Option<(Register, Register)>),
    Xnor(Option<Register>, Option<(Register, Register)>),
    Or(Option<Register>, Option<(Register, Register)>),
    Nor(Option<Register>, Option<(Register, Register)>),
    And(Option<Register>, Option<(Register, Register)>),
    Nand(Option<Register>, Option<(Register, Register)>),
    Not,
    RotateRight,
    RotateLeft,
    ShiftRight,
    ShiftLeft,
    PushRegister(Register),
    PopRegister(Register),
    LoadAccumulator(Option<Address>, Option<Immediate>),
    StoreAccumulator(Address),
    CopyAccumulatorToRegister(Register),
    CopyRegisterToAccumulator(Register),
    BranchIfCarrySet(Option<NonZeroPageAddress>, Option<Label>),
    BranchIfCarryNotSet(Option<NonZeroPageAddress>, Option<Label>),
    BranchIfNegative(Option<NonZeroPageAddress>, Option<Label>),
    BranchIfPositive(Option<NonZeroPageAddress>, Option<Label>),
    BranchIfEqual(Register, Option<NonZeroPageAddress>, Option<Label>),
    BranchIfNotEqual(Register, Option<NonZeroPageAddress>, Option<Label>),
    BranchIfZero(Option<NonZeroPageAddress>, Option<Label>),
    BranchIfNotZero(Option<NonZeroPageAddress>, Option<Label>),
    BranchIfGreater(Register, Option<NonZeroPageAddress>, Option<Label>),
    BranchIfLess(Register, Option<NonZeroPageAddress>, Option<Label>),
    Jump(Option<NonZeroPageAddress>, Option<Label>),
    JumpSubroutine(Option<NonZeroPageAddress>, Option<Subroutine>),
    ReturnFromSubroutine(Subroutine),
    Label(String),
    Subroutine(String),
    PushProgramCounter,
    PopProgramCounter,
    Pointer(String, PointerAddress),
    SetOrigin(Option<Address>),
    Word(Immediate),
    PopProgramCounterSubroutine,
}

/// An instruction with its names as character sequences.
pub enum InstructionView {
    Noop,
    Add(Option<Register>, Option<(Register, Register)>),
    Subtract(Option<Register>, Option<(Register, Register)>),
    SetCarry,
    ClearCarry,
    Xor(Option<Register>, Option<(Register, Register)>),
    Xnor(Option<Register>, Option<(Register, Register)>),
    Or(Option<Register>, Option<(Register, Register)>),
    Nor(Option<Register>, Option<(Register, Register)>),
    And(Option<Register>, Option<(Register, Register)>),
    Nand(Option<Register>, Option<(Register, Register)>),
    Not,
    RotateRight,
    RotateLeft,
    ShiftRight,
    ShiftLeft,
    PushRegister(Register),
    PopRegister(Register),
    LoadAccumulator(Option<AddressView>, Option<Immediate>),
    StoreAccumulator(AddressView),
    CopyAccumulatorToRegister(Register),
    CopyRegisterToAccumulator(Register),
    BranchIfCarrySet(Option<NonZeroPageAddress>, Option<Seq<char>>),
    BranchIfCarryNotSet(Option<NonZeroPageAddress>, Option<Seq<char>>),
    BranchIfNegative(Option<NonZeroPageAddress>, Option<Seq<char>>),
    BranchIfPositive(Option<NonZeroPageAddress>, Option<Seq<char>>),
    BranchIfEqual(Register, Option<NonZeroPageAddress>, Option<Seq<char>>),
    BranchIfNotEqual(Register, Option<NonZeroPageAddress>, Option<Seq<char>>),
    BranchIfZero(Option<NonZeroPageAddress>, Option<Seq<char>>),
    BranchIfNotZero(Option<NonZeroPageAddress>, Option<Seq<char>>),
    BranchIfGreater(Register, Option<NonZeroPageAddress>, Option<Seq<char>>),
    BranchIfLess(Register, Option<NonZeroPageAddress>, Option<Seq<char>>),
    Jump(Option<NonZeroPageAddress>, Option<Seq<char>>),
    JumpSubroutine(Option<NonZeroPageAddress>, Option<Seq<char>>),
    ReturnFromSubroutine(Seq<char>),
    Label(Seq<char>),
    Subroutine(Seq<char>),
    PushProgramCounter,
    PopProgramCounter,
    Pointer(Seq<char>, PointerAddress),
    SetOrigin(Option<AddressView>),
    Word(Immediate),
    PopProgramCounterSubroutine,
}

impl View for Instruction {
    type V = InstructionView;

    open spec fn view(&self) -> InstructionView {
        match self {
            Instruction::Noop => InstructionView::Noop,
            Instruction::Add(x0, x1) => InstructionView::Add(*x0, *x1),
            Instruction::Subtract(x0, x1) => InstructionView::Subtract(*x0, *x1),
            Instruction::SetCarry => InstructionView::SetCarry,
            Instruction::ClearCarry => InstructionView::ClearCarry,
            Instruction::Xor(x0, x1) => InstructionView::Xor(*x0, *x1),
            Instruction::Xnor(x0, x1) => InstructionView::Xnor(*x0, *x1),
            Instruction::Or(x0, x1) => InstructionView::Or(*x0, *x1),
            Instruction::Nor(x0, x1) => InstructionView::Nor(*x0, *x1),
            Instruction::And(x0, x1) => InstructionView::And(*x0, *x1),
            Instruction::Nand(x0, x1) => InstructionView::Nand(*x0, *x1),
            Instruction::Not => InstructionView::Not,
            Instruction::RotateRight => InstructionView::RotateRight,
            Instruction::RotateLeft => InstructionView::RotateLeft,
            Instruction::ShiftRight => InstructionView::ShiftRight,
            Instruction::ShiftLeft => InstructionView::ShiftLeft,
            Instruction::PushRegister(x0) => InstructionView::PushRegister(*x0),
            Instruction::PopRegister(x0) => InstructionView::PopRegister(*x0),
            Instruction::LoadAccumulator(x0, x1) => InstructionView::LoadAccumulator(match x0 { Some(a) => Some(a@), None => None }, *x1),
            Instruction::StoreAccumulator(x0) => InstructionView::StoreAccumulator(x0@),
            Instruction::CopyAccumulatorToRegister(x0) => InstructionView::CopyAccumulatorToRegister(*x0),
            Instruction::CopyRegisterToAccumulator(x0) => InstructionView::CopyRegisterToAccumulator(*x0),
            Instruction::BranchIfCarrySet(x0, x1) => InstructionView::BranchIfCarrySet(*x0, match x1 { Some(l) => Some(l.name@), None => None }),
            Instruction::BranchIfCarryNotSet(x0, x1) => InstructionView::BranchIfCarryNotSet(*x0, match x1 { Some(l) => Some(l.name@), None => None }),
            Instruction::BranchIfNegative(x0, x1) => InstructionView::BranchIfNegative(*x0, match x1 { Some(l) => Some(l.name@), None => None }),
            Instruction::BranchIfPositive(x0, x1) => InstructionView::BranchIfPositive(*x0, match x1 { Some(l) => Some(l.name@), None => None }),
            Instruction::BranchIfEqual(x0, x1, x2) => InstructionView::BranchIfEqual(*x0, *x1, match x2 { Some(l) => Some(l.name@), None => None }),
            Instruction::BranchIfNotEqual(x0, x1, x2) => InstructionView::BranchIfNotEqual(*x0, *x1, match x2 { Some(l) => Some(l.name@), None => None }),
            Instruction::BranchIfZero(x0, x1) => InstructionView::BranchIfZero(*x0, match x1 { Some(l) => Some(l.name@), None => None }),
            Instruction::BranchIfNotZero(x0, x1) => InstructionView::BranchIfNotZero(*x0, match x1 { Some(l) => Some(l.name@), None => None }),
            Instruction::BranchIfGreater(x0, x1, x2) => InstructionView::BranchIfGreater(*x0, *x1, match x2 { Some(l) => Some(l.name@), None => None }),
            Instruction::BranchIfLess(x0, x1, x2) => InstructionView::BranchIfLess(*x0, *x1, match x2 { Some(l) => Some(l.name@), None => None }),
            Instruction::Jump(x0, x1) => InstructionView::Jump(*x0, match x1 { Some(l) => Some(l.name@), None => None }),
            Instruction::JumpSubroutine(x0, x1) => InstructionView::JumpSubroutine(*x0, match x1 { Some(l) => Some(l.name@), None => None }),
            Instruction::ReturnFromSubroutine(x0) => InstructionView::ReturnFromSubroutine(x0.name@),
            Instruction::Label(x0) => InstructionView::Label(x0@),
            Instruction::Subroutine(x0) => InstructionView::Subroutine(x0@),
            Instruction::PushProgramCounter => InstructionView::PushProgramCounter,
            Instruction::PopProgramCounter => InstructionView::PopProgramCounter,
            Instruction::Pointer(x0, x1) => InstructionView::Pointer(x0@, *x1),
            Instruction::SetOrigin(x0) => InstructionView::SetOrigin(match x0 { Some(a) => Some(a@), None => None }),
            Instruction::Word(x0) => InstructionView::Word(*x0),
            Instruction::PopProgramCounterSubroutine => InstructionView::PopProgramCounterSubroutine,
        }
    }
}

pub open spec fn views(s: Seq<Instruction>) -> Seq<InstructionView> {
    s.map_values(|i: Instruction| i@)
}

impl Address {
    /// A copy of the address.
    pub fn duplicate(&self) -> (r: Address)
        ensures
            r@ == self@,
    {
        Address {
            address: self.address,
            index: self.index,
            mode: self.mode,
            pointer: match &self.pointer {
                Some(p) => Some(p.clone()),
                None => None,
            },
        }
    }
}

impl Instruction {
    /// A copy of the instruction.
    pub fn duplicate(&self) -> (r: Instruction)
        ensures
            r@ == self@,
    {
        match self {
            Instruction::Noop => Instruction::Noop,
            Instruction::Add(x0, x1) => Instruction::Add(*x0, *x1),
            Instruction::Subtract(x0, x1) => Instruction::Subtract(*x0, *x1),
            Instruction::SetCarry => Instruction::SetCarry,
            Instruction::ClearCarry => Instruction::ClearCarry,
            Instruction::Xor(x0, x1) => Instruction::Xor(*x0, *x1),
            Instruction::Xnor(x0, x1) => Instruction::Xnor(*x0, *x1),
            Instruction::Or(x0, x1) => Instruction::Or(*x0, *x1),
            Instruction::Nor(x0, x1) => Instruction::Nor(*x0, *x1),
            Instruction::And(x0, x1) => Instruction::And(*x0, *x1),
            Instruction::Nand(x0, x1) => Instruction::Nand(*x0, *x1),
            Instruction::Not => Instruction::Not,
            Instruction::RotateRight => Instruction::RotateRight,
            Instruction::RotateLeft => Instruction::RotateLeft,
            Instruction::ShiftRight => Instruction::ShiftRight,
            Instruction::ShiftLeft => Instruction::ShiftLeft,
            Instruction::PushRegister(x0) => Instruction::PushRegister(*x0),
            Instruction::PopRegister(x0) => Instruction::PopRegister(*x0),
            Instruction::LoadAccumulator(x0, x1) => Instruction::LoadAccumulator(match x0 { Some(a) => Some(a.duplicate()), None => None }, *x1),
            Instruction::StoreAccumulator(x0) => Instruction::StoreAccumulator(x0.duplicate()),
            Instruction::CopyAccumulatorToRegister(x0) => Instruction::CopyAccumulatorToRegister(*x0),
            Instruction::CopyRegisterToAccumulator(x0) => Instruction::CopyRegisterToAccumulator(*x0),
            Instruction::BranchIfCarrySet(x0, x1) => Instruction::BranchIfCarrySet(*x0, match x1 { Some(l) => Some(Label { name: l.name.clone() }), None => None }),
            Instruction::BranchIfCarryNotSet(x0, x1) => Instruction::BranchIfCarryNotSet(*x0, match x1 { Some(l) => Some(Label { name: l.name.clone() }), None => None }),
            Instruction::BranchIfNegative(x0, x1) => Instruction::BranchIfNegative(*x0, match x1 { Some(l) => Some(Label { name: l.name.clone() }), None => None }),
            Instruction::BranchIfPositive(x0, x1) => Instruction::BranchIfPositive(*x0, match x1 { Some(l) => Some(Label { name: l.name.clone() }), None => None }),
            Instruction::BranchIfEqual(x0, x1, x2) => Instruction::BranchIfEqual(*x0, *x1, match x2 { Some(l) => Some(Label { name: l.name.clone() }), None => None }),
            Instruction::BranchIfNotEqual(x0, x1, x2) => Instruction::BranchIfNotEqual(*x0, *x1, match x2 { Some(l) => Some(Label { name: l.name.clone() }), None => None }),
            Instruction::BranchIfZero(x0, x1) => Instruction::BranchIfZero(*x0, match x1 { Some(l) => Some(Label { name: l.name.clone() }), None => None }),
            Instruction::BranchIfNotZero(x0, x1) => Instruction::BranchIfNotZero(*x0, match x1 { Some(l) => Some(Label { name: l.name.clone() }), None => None }),
            Instruction::BranchIfGreater(x0, x1, x2) => Instruction::BranchIfGreater(*x0, *x1, match x2 { Some(l) => Some(Label { name: l.name.clone() }), None => None }),
            Instruction::BranchIfLess(x0, x1, x2) => Instruction::BranchIfLess(*x0, *x1, match x2 { Some(l) => Some(Label { name: l.name.clone() }), None => None }),
            Instruction::Jump(x0, x1) => Instruction::Jump(*x0, match x1 { Some(l) => Some(Label { name: l.name.clone() }), None => None }),
            Instruction::JumpSubroutine(x0, x1) => Instruction::JumpSubroutine(*x0, match x1 { Some(l) => Some(Subroutine { name: l.name.clone() }), None => None }),
            Instruction::ReturnFromSubroutine(x0) => Instruction::ReturnFromSubroutine(Subroutine { name: x0.name.clone() }),
            Instruction::Label(x0) => Instruction::Label(x0.clone()),
            Instruction::Subroutine(x0) => Instruction::Subroutine(x0.clone()),
            Instruction::PushProgramCounter => Instruction::PushProgramCounter,
            Instruction::PopProgramCounter => Instruction::PopProgramCounter,
            Instruction::Pointer(x0, x1) => Instruction::Pointer(x0.clone(), *x1),
            Instruction::SetOrigin(x0) => Instruction::SetOrigin(match x0 { Some(a) => Some(a.duplicate()), None => None }),
            Instruction::Word(x0) => Instruction::Word(*x0),
            Instruction::PopProgramCounterSubroutine => Instruction::PopProgramCounterSubroutine,
        }
    }
}

pub open spec fn end_suffix() -> Seq<char> {
    "_EndSubroutine"@
}

pub open spec fn start_suffix() -> Seq<char> {
    "_Subroutine"@
}

/// What one instruction becomes when subroutine blocks are lowered: `sr name:` becomes a
/// jump around the body to `name_EndSubroutine` and the label `name_Subroutine`; a return
/// becomes the return opcode followed by the end label it names; a call becomes a push of
/// the program counter and a jump to `name_Subroutine`.
pub open spec fn lower_spec(i: InstructionView) -> Seq<InstructionView> {
    match i {
        InstructionView::Subroutine(name) => seq![
            InstructionView::Jump(None, Some(name + end_suffix())),
            InstructionView::Label(name + start_suffix()),
        ],
        InstructionView::ReturnFromSubroutine(name) => seq![
            InstructionView::PopProgramCounterSubroutine,
            InstructionView::Label(name),
        ],
        InstructionView::JumpSubroutine(address, name) => seq![
            InstructionView::PushProgramCounter,
            InstructionView::Jump(address, match name {
                Some(n) => Some(n + start_suffix()),
                None => None,
            }),
        ],
        _ => seq![i],
    }
}

pub open spec fn lower_all(s: Seq<InstructionView>) -> Seq<InstructionView>
    decreases s.len(),
{
    if s.len() == 0 {
        Seq::empty()
    } else {
        lower_all(s.drop_last()) + lower_spec(s.last())
    }
}

/// Lowers every subroutine definition, call and return; other instructions pass unchanged.
pub fn preprocess(instructions: Vec<Instruction>) -> (r: Vec<Instruction>)
    ensures
        views(r@) == lower_all(views(instructions@)),
{
    let mut result: Vec<Instruction> = Vec::with_capacity(instructions.len());
    let mut k: usize = 0;
    while k < instructions.len()
        invariant
            k <= instructions@.len(),
            views(result@) == lower_all(views(instructions@.take(k as int))),
        decreases instructions@.len() - k,
    {
        let ghost before = views(result@);
        proof {
            assert(views(instructions@.take(k as int + 1)).drop_last() =~= views(instructions@.take(k as int)));
        }
        match &instructions[k] {
            Instruction::Subroutine(name) => {
                result.push(Instruction::Jump(None, Some(Label { name: name.clone().concat("_EndSubroutine") })));
                result.push(Instruction::Label(name.clone().concat("_Subroutine")));
            },
            Instruction::ReturnFromSubroutine(label) => {
                result.push(Instruction::PopProgramCounterSubroutine);
                result.push(Instruction::Label(label.name.clone()));
            },
            Instruction::JumpSubroutine(address, label) => {
                result.push(Instruction::PushProgramCounter);
                let target = match label {
                    Some(l) => Some(Label { name: l.name.clone().concat("_Subroutine") }),
                    None => None,
                };
                result.push(Instruction::Jump(*address, target));
            },
            other => {
                result.push(other.duplicate());
            },
        }
        k = k + 1;
        assert(views(result@) =~= before + lower_spec(instructions@[k - 1]@));
    }
    assert(instructions@.take(k as int) =~= instructions@);
    result
}

/// The concatenation of instruction streams.
pub open spec fn flatten(streams: Seq<Seq<InstructionView>>) -> Seq<InstructionView>
    decreases streams.len(),
{
    if streams.len() == 0 {
        Seq::empty()
    } else {
        flatten(streams.drop_last()) + streams.last()
    }
}

/// The include files requested so far, by name, the instruction streams parsed from them in
/// the order they were found, and the names still to be visited (a stack: the last is next).
pub struct Includes {
    pub files: Vec<String>,
    pub instructions: Vec<Vec<Instruction>>,
    pub pending: Vec<String>,
}

pub open spec fn stream_views(s: Seq<Vec<Instruction>>) -> Seq<Seq<InstructionView>> {
    s.map_values(|v: Vec<Instruction>| views(v@))
}

pub open spec fn file_names(s: Seq<String>) -> Seq<Seq<char>> {
    s.map_values(|f: String| f@)
}

impl Includes {
    pub fn new() -> (r: Includes)
        ensures
            r.files@.len() == 0,
            r.instructions@.len() == 0,
            r.pending@.len() == 0,
    {
        Includes { files: Vec::new(), instructions: Vec::new(), pending: Vec::new() }
    }

    /// Records a request for the file `target`. Returns true when it had not been requested
    /// before: the caller then parses it and hands its instructions to `add_instructions`.
    pub fn request(&mut self, target: String) -> (r: bool)
        ensures
            r == !file_names(old(self).files@).contains(target@),
            file_names(final(self).files@) == if r {
                file_names(old(self).files@).push(target@)
            } else {
                file_names(old(self).files@)
            },
            final(self).instructions == old(self).instructions,
            final(self).pending == old(self).pending,
    {
        let mut k: usize = 0;
        while k < self.files.len()
            invariant
                k <= self.files@.len(),
                forall|j: int| 0 <= j < k ==> self.files@[j]@ != target@,
            decreases self.files@.len() - k,
        {
            if self.files[k] == target {
                assert(file_names(self.files@)[k as int] == target@);
                return false;
            }
            k = k + 1;
        }
        assert(!file_names(self.files@).contains(target@)) by {
            if file_names(self.files@).contains(target@) {
                let j = choose|j: int| 0 <= j < file_names(self.files@).len() && file_names(self.files@)[j] == target@;
                assert(self.files@[j]@ == target@);
            }
        }
        let ghost before = file_names(self.files@);
        self.files.push(target);
        assert(file_names(self.files@) =~= before.push(target@));
        true
    }

    /// Handles an `#include <file>` line: the file name is the rest of the line, trimmed.
    /// Returns the name when the file had not been requested before.
    pub fn parse_include(&mut self, line: &str) -> (r: Option<String>)
        ensures
            match r {
                Some(name) => name@ == include_target(line@) && !file_names(old(self).files@).contains(name@)
                    && file_names(final(self).files@) == file_names(old(self).files@).push(name@),
                None => file_names(old(self).files@).contains(include_target(line@))
                    && file_names(final(self).files@) == file_names(old(self).files@),
            },
            final(self).instructions == old(self).instructions,
            final(self).pending == old(self).pending,
    {
        let chars = crate::text::chars_of(line);
        let target = include_name(&chars);
        let name = crate::text::string_of(&target);
        let again = name.clone();
        if self.request(name) {
            Some(again)
        } else {
            None
        }
    }

    /// Appends the instructions parsed from a requested file.
    pub fn add_instructions(&mut self, instructions: Vec<Instruction>)
        ensures
            stream_views(final(self).instructions@) == stream_views(old(self).instructions@).push(views(instructions@)),
            final(self).files == old(self).files,
            final(self).pending == old(self).pending,
    {
        let ghost before = stream_views(self.instructions@);
        let ghost v = views(instructions@);
        self.instructions.push(instructions);
        assert(stream_views(self.instructions@) =~= before.push(v));
    }
}

pub open spec fn include_keyword() -> Seq<char> {
    "#include"@
}

/// The file named by an include line: what follows the keyword, trimmed.
pub open spec fn include_target(line: Seq<char>) -> Seq<char> {
    let t = crate::text::trim(line);
    if crate::text::starts_with(t, include_keyword()) {
        crate::text::trim(t.skip(include_keyword().len() as int))
    } else {
        t
    }
}

pub fn include_name(line: &Vec<char>) -> (r: Vec<char>)
    ensures
        r@ == include_target(line@),
{
    let t = crate::text::trim_chars(line);
    if crate::text::starts_with_text(&t, "#include") {
        let n = "#include".unicode_len();
        let rest = crate::text::copy_range(&t, n, t.len());
        assert(rest@ =~= t@.skip(n as int));
        crate::text::trim_chars(&rest)
    } else {
        t
    }
}

/// Appends copies of the instructions of `s` to `result`.
pub fn append_copies(result: &mut Vec<Instruction>, s: &Vec<Instruction>)
    ensures
        views(final(result)@) == views(old(result)@) + views(s@),
{
    let mut j: usize = 0;
    let ghost start = views(result@);
    assert(views(s@.take(0)) =~= Seq::<InstructionView>::empty());
    assert(views(result@) =~= start + views(s@.take(0)));
    while j < s.len()
        invariant
            j <= s@.len(),
            views(result@) == start + views(s@.take(j as int)),
        decreases s@.len() - j,
    {
        let ghost before = views(result@);
        result.push(s[j].duplicate());
        j = j + 1;
        assert(views(result@) =~= before.push(s@[j - 1]@));
        assert(views(s@.take(j as int)) =~= views(s@.take(j - 1)).push(s@[j - 1]@));
    }
    assert(s@.take(j as int) =~= s@);
}

/// The main stream followed by every included stream, in the order they were found.
pub fn postprocess(instructions: Vec<Instruction>, includes: Includes) -> (r: Vec<Instruction>)
    ensures
        views(r@) == views(instructions@) + flatten(stream_views(includes.instructions@)),
{
    let mut result = instructions;
    let ghost main = views(result@);
    let streams = includes.instructions;
    let ghost all = stream_views(streams@);
    let mut k: usize = 0;
    assert(all.take(0) =~= Seq::<Seq<InstructionView>>::empty());
    assert(views(result@) =~= main + flatten(all.take(0)));
    while k < streams.len()
        invariant
            k <= streams@.len(),
            all == stream_views(streams@),
            views(result@) == main + flatten(all.take(k as int)),
        decreases streams@.len() - k,
    {
        append_copies(&mut result, &streams[k]);
        k = k + 1;
        assert(all.take(k as int).drop_last() =~= all.take(k - 1));
        assert(views(result@) =~= main + flatten(all.take(k as int)));
    }
    assert(all.take(k as int) =~= all);
    result
}

pub open spec fn reversed(s: Seq<Seq<char>>) -> Seq<Seq<char>> {
    Seq::new(s.len(), |i: int| s[s.len() - 1 - i])
}

/// The next file of the walk, from requested `files` and the `pending` stack: names already
/// requested are dropped from the top; the first new one is requested and returned.
pub open spec fn next_file_spec(files: Seq<Seq<char>>, pending: Seq<Seq<char>>) -> (Option<Seq<char>>, Seq<Seq<char>>, Seq<Seq<char>>)
    decreases pending.len(),
{
    if pending.len() == 0 {
        (None, files, pending)
    } else if files.contains(pending.last()) {
        next_file_spec(files, pending.drop_last())
    } else {
        (Some(pending.last()), files.push(pending.last()), pending.drop_last())
    }
}

impl Includes {
    /// Schedules the files that a file just read includes, to be visited before anything
    /// scheduled earlier and in the order given: the walk is depth-first in discovery order.
    pub fn queue(&mut self, names: Vec<String>)
        ensures
            file_names(final(self).pending@) == file_names(old(self).pending@) + reversed(file_names(names@)),
            final(self).files == old(self).files,
            final(self).instructions == old(self).instructions,
    {
        let ghost start = file_names(self.pending@);
        let ghost all = file_names(names@);
        let mut names = names;
        let mut k: usize = 0;
        let n = names.len();
        assert(start + reversed(all.take(0)) =~= start);
        while k < n
            invariant
                k <= n == all.len(),
                names@.len() == n - k,
                file_names(names@) == all.take(n - k),
                file_names(self.pending@) == start + reversed(all.skip(n - k)),
                self.files == old(self).files,
                self.instructions == old(self).instructions,
            decreases n - k,
        {
            let ghost before = file_names(self.pending@);
            let ghost was = names@;
            let last = names.pop().unwrap();
            assert(names@ =~= was.drop_last());
            assert(file_names(names@) =~= all.take(n - k - 1));
            assert(last == was[n - k - 1]);
            assert(file_names(was)[n - k - 1] == was[n - k - 1]@);
            assert(last@ == all[n - k - 1]);
            self.pending.push(last);
            k = k + 1;
            assert(file_names(self.pending@) =~= before.push(all[n - k]));
            assert(reversed(all.skip(n - k)) =~= reversed(all.skip(n - k + 1)).push(all[n - k]));
        }
        assert(all.skip(0) =~= all);
    }

    /// The next file to read, if any; see `next_file_spec`. The caller reads and parses it,
    /// hands its instructions to `add_instructions` and its includes to `queue`.
    pub fn next_file(&mut self) -> (r: Option<String>)
        ensures
            ({
                let (name, files, pending) = next_file_spec(file_names(old(self).files@), file_names(old(self).pending@));
                &&& match name {
                    Some(n) => r matches Some(s) && s@ == n,
                    None => r is None,
                }
                &&& file_names(final(self).files@) == files
                &&& file_names(final(self).pending@) == pending
            }),
            final(self).instructions == old(self).instructions,
    {
        let ghost target = next_file_spec(file_names(self.files@), file_names(self.pending@));
        while self.pending.len() > 0
            invariant
                target == next_file_spec(file_names(old(self).files@), file_names(old(self).pending@)),
                target == next_file_spec(file_names(self.files@), file_names(self.pending@)),
                self.instructions == old(self).instructions,
            decreases self.pending@.len(),
        {
            let ghost before = file_names(self.pending@);
            let ghost files = file_names(self.files@);
            let ghost was = self.pending@;
            assert(before.len() > 0);
            let name = self.pending.pop().unwrap();
            assert(self.pending@ =~= was.drop_last());
            assert(file_names(self.pending@) =~= before.drop_last());
            assert(name == was.last());
            assert(name@ == before.last());
            let again = name.clone();
            if self.request(name) {
                assert(!files.contains(before.last()));
                return Some(again);
            }
            assert(files.contains(before.last()));
        }
        None
    }
}

} // verus!
