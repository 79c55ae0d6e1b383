//! The source parser: turns the text of one file into instructions, include requests and
//! the numbers of lines it skipped.

use vstd::prelude::*;
use crate::instruction::{Instruction, InstructionView, end_suffix, include_keyword, include_name, include_target, views};
use crate::operand::{
    Address, AddressMode, Immediate, Label, NonZeroPageAddress, ParseError, PointerAddress, Register, Subroutine,
    address_result_view, address_spec, immediate_spec, pointer_address_spec, register_spec, target_spec,
};
use crate::text::{
    chars_of, contains_char, copy_range, ends_with, has_char, is_ws, split_words, starts_with, starts_with_text, string_of,
    trim, trim_chars, words,
};
use crate::text::views as word_views;

verus! {

/// Whether `m` is the lower-case word `word`, ignoring the case of ASCII letters in `m`.
pub open spec fn matches_word(m: Seq<char>, word: Seq<char>) -> bool {
    m.len() == word.len() && forall|i: int|
        0 <= i < m.len() ==> (m[i] == word[i] || ('A' <= m[i] && m[i] <= 'Z' && m[i] as u32 + 32 == word[i] as u32))
}

fn eq_ignore_case(a: &Vec<char>, b: &str) -> (r: bool)
    ensures
        r == matches_word(a@, b@),
{
    let n = b.unicode_len();
    if a.len() != n {
        return false;
    }
    let mut i: usize = 0;
    while i < n
        invariant
            n == a@.len() == b@.len(),
            i <= n,
            forall|j: int|
                0 <= j < i ==> (a@[j] == b@[j] || ('A' <= a@[j] && a@[j] <= 'Z' && a@[j] as u32 + 32 == b@[j] as u32)),
        decreases n - i,
    {
        let x = a[i];
        let y = b.get_char(i);
        if !(x == y || ('A' <= x && x <= 'Z' && x as u32 + 32 == y as u32)) {
            return false;
        }
        i = i + 1;
    }
    true
}

pub open spec fn mnemonic_code(m: Seq<char>) -> u8 {
        if matches_word(m, "noop"@) {
        1
    } else if matches_word(m, "add"@) {
        2
    } else if matches_word(m, "sub"@) {
        3
    } else if matches_word(m, "sc"@) {
        4
    } else if matches_word(m, "clc"@) {
        5
    } else if matches_word(m, "xor"@) {
        6
    } else if matches_word(m, "xnor"@) {
        7
    } else if matches_word(m, "or"@) {
        8
    } else if matches_word(m, "nor"@) {
        9
    } else if matches_word(m, "and"@) {
        10
    } else if matches_word(m, "nand"@) {
        11
    } else if matches_word(m, "not"@) {
        12
    } else if matches_word(m, "ror"@) {
        13
    } else if matches_word(m, "rol"@) {
        14
    } else if matches_word(m, "shr"@) {
        15
    } else if matches_word(m, "shl"@) {
        16
    } else if matches_word(m, "phr"@) {
        17
    } else if matches_word(m, "plr"@) {
        18
    } else if matches_word(m, "lda"@) {
        19
    } else if matches_word(m, "sta"@) {
        20
    } else if matches_word(m, "cpa"@) {
        21
    } else if matches_word(m, "cpr"@) {
        22
    } else if matches_word(m, "bcs"@) {
        23
    } else if matches_word(m, "bcc"@) {
        24
    } else if matches_word(m, "bn"@) {
        25
    } else if matches_word(m, "bp"@) {
        26
    } else if matches_word(m, "beq"@) {
        27
    } else if matches_word(m, "bne"@) {
        28
    } else if matches_word(m, "bze"@) {
        29
    } else if matches_word(m, "bz"@) {
        30
    } else if matches_word(m, "bnz"@) {
        31
    } else if matches_word(m, "bg"@) {
        32
    } else if matches_word(m, "bl"@) {
        33
    } else if matches_word(m, "jmp"@) {
        34
    } else if matches_word(m, "jsr"@) {
        35
    } else if matches_word(m, "rts"@) {
        36
    } else if matches_word(m, "phpc"@) {
        37
    } else if matches_word(m, "plpc"@) {
        38
    } else {
        0
    }
}
fn mnemonic_code_exec(m: &Vec<char>) -> (r: u8)
    ensures
        r == mnemonic_code(m@),
{
    if eq_ignore_case(m, "noop") {
        1
    } else if eq_ignore_case(m, "add") {
        2
    } else if eq_ignore_case(m, "sub") {
        3
    } else if eq_ignore_case(m, "sc") {
        4
    } else if eq_ignore_case(m, "clc") {
        5
    } else if eq_ignore_case(m, "xor") {
        6
    } else if eq_ignore_case(m, "xnor") {
        7
    } else if eq_ignore_case(m, "or") {
        8
    } else if eq_ignore_case(m, "nor") {
        9
    } else if eq_ignore_case(m, "and") {
        10
    } else if eq_ignore_case(m, "nand") {
        11
    } else if eq_ignore_case(m, "not") {
        12
    } else if eq_ignore_case(m, "ror") {
        13
    } else if eq_ignore_case(m, "rol") {
        14
    } else if eq_ignore_case(m, "shr") {
        15
    } else if eq_ignore_case(m, "shl") {
        16
    } else if eq_ignore_case(m, "phr") {
        17
    } else if eq_ignore_case(m, "plr") {
        18
    } else if eq_ignore_case(m, "lda") {
        19
    } else if eq_ignore_case(m, "sta") {
        20
    } else if eq_ignore_case(m, "cpa") {
        21
    } else if eq_ignore_case(m, "cpr") {
        22
    } else if eq_ignore_case(m, "bcs") {
        23
    } else if eq_ignore_case(m, "bcc") {
        24
    } else if eq_ignore_case(m, "bn") {
        25
    } else if eq_ignore_case(m, "bp") {
        26
    } else if eq_ignore_case(m, "beq") {
        27
    } else if eq_ignore_case(m, "bne") {
        28
    } else if eq_ignore_case(m, "bze") {
        29
    } else if eq_ignore_case(m, "bz") {
        30
    } else if eq_ignore_case(m, "bnz") {
        31
    } else if eq_ignore_case(m, "bg") {
        32
    } else if eq_ignore_case(m, "bl") {
        33
    } else if eq_ignore_case(m, "jmp") {
        34
    } else if eq_ignore_case(m, "jsr") {
        35
    } else if eq_ignore_case(m, "rts") {
        36
    } else if eq_ignore_case(m, "phpc") {
        37
    } else if eq_ignore_case(m, "plpc") {
        38
    } else {
        0
    }
}
/// A name as written in module `module`: names with a dot are already qualified, others get
/// the module's name and a dot in front.
pub open spec fn qualified(module: Seq<char>, name: Seq<char>) -> Seq<char> {
    if contains_char(name, '.') { name } else { qualified_local(module, name) }
}

pub open spec fn qualified_local(module: Seq<char>, name: Seq<char>) -> Seq<char> {
    module + seq!['.'] + name
}

pub fn concat_text(a: &Vec<char>, b: &str) -> (r: Vec<char>)
    ensures
        r@ == a@ + b@,
{
    let mut r = copy_range(a, 0, a.len());
    let n = b.unicode_len();
    let mut i: usize = 0;
    while i < n
        invariant
            n == b@.len(),
            i <= n,
            r@ == a@ + b@.take(i as int),
        decreases n - i,
    {
        r.push(b.get_char(i));
        i = i + 1;
        assert(r@ =~= a@ + b@.take(i as int));
    }
    assert(b@.take(n as int) =~= b@);
    r
}

fn qualified_local_exec(module: &Vec<char>, name: &Vec<char>) -> (r: Vec<char>)
    ensures
        r@ == qualified_local(module@, name@),
{
    let mut r = copy_range(module, 0, module.len());
    r.push('.');
    let r2 = crate::text::concat(&r, name);
    assert(r2@ =~= qualified_local(module@, name@));
    r2
}

fn qualified_exec(module: &Vec<char>, name: &Vec<char>) -> (r: Vec<char>)
    ensures
        r@ == qualified(module@, name@),
{
    if has_char(name, '.') {
        copy_range(name, 0, name.len())
    } else {
        qualified_local_exec(module, name)
    }
}

/// One register (`r`) or two (`r1, r2`) after the mnemonic.
pub open spec fn registers_spec(w: Seq<Seq<char>>) -> Result<(Option<Register>, Option<(Register, Register)>), ParseError> {
    if w.len() == 2 {
        match register_spec(w[1]) {
            Ok(r) => Ok((Some(r), None)),
            Err(e) => Err(e),
        }
    } else if w.len() == 3 && w[1].len() > 0 && w[1].last() == ',' {
        match (register_spec(w[1].drop_last()), register_spec(w[2])) {
            (Ok(a), Ok(b)) => Ok((None, Some((a, b)))),
            (Err(e), _) => Err(e),
            (_, Err(e)) => Err(e),
        }
    } else {
        Err(ParseError::WrongOperandCount)
    }
}

/// A branch target: `~name` (qualified in `module`) or a non-zero-page address.
pub open spec fn target_pair_spec(module: Seq<char>, params: Seq<char>) -> Result<(Option<NonZeroPageAddress>, Option<Seq<char>>), ParseError> {
    if contains_char(params, '~') {
        if params.len() > 1 && params[0] == '~' {
            Ok((None, Some(qualified(module, params.drop_first()))))
        } else {
            Err(ParseError::InvalidTarget)
        }
    } else {
        match target_spec(params) {
            Ok(a) => Ok((Some(a), None)),
            Err(e) => Err(e),
        }
    }
}

/// The operands of a register-comparing branch: `r, target`.
pub open spec fn compare_target_spec(module: Seq<char>, w: Seq<Seq<char>>) -> Result<(Register, Option<NonZeroPageAddress>, Option<Seq<char>>), ParseError> {
    if w.len() == 3 && w[1].len() > 0 && w[1].last() == ',' {
        match register_spec(w[1].drop_last()) {
            Ok(r) => match target_pair_spec(module, w[2]) {
                Ok((a, l)) => Ok((r, a, l)),
                Err(e) => Err(e),
            },
            Err(e) => Err(e),
        }
    } else {
        Err(ParseError::WrongOperandCount)
    }
}

pub open spec fn mnemonic_spec(module: Seq<char>, code: u8, w: Seq<Seq<char>>, params: Seq<char>) -> Result<Option<InstructionView>, ParseError> {
    match code {
        1 => {
        Ok(Some(InstructionView::Noop))
        },
        2 => {
        match registers_spec(w) {
            Ok((one, two)) => Ok(Some(InstructionView::Add(one, two))),
            Err(e) => Err(e),
        }
        },
        3 => {
        match registers_spec(w) {
            Ok((one, two)) => Ok(Some(InstructionView::Subtract(one, two))),
            Err(e) => Err(e),
        }
        },
        4 => {
        Ok(Some(InstructionView::SetCarry))
        },
        5 => {
        Ok(Some(InstructionView::ClearCarry))
        },
        6 => {
        match registers_spec(w) {
            Ok((one, two)) => Ok(Some(InstructionView::Xor(one, two))),
            Err(e) => Err(e),
        }
        },
        7 => {
        match registers_spec(w) {
            Ok((one, two)) => Ok(Some(InstructionView::Xnor(one, two))),
            Err(e) => Err(e),
        }
        },
        8 => {
        match registers_spec(w) {
            Ok((one, two)) => Ok(Some(InstructionView::Or(one, two))),
            Err(e) => Err(e),
        }
        },
        9 => {
        match registers_spec(w) {
            Ok((one, two)) => Ok(Some(InstructionView::Nor(one, two))),
            Err(e) => Err(e),
        }
        },
        10 => {
        match registers_spec(w) {
            Ok((one, two)) => Ok(Some(InstructionView::And(one, two))),
            Err(e) => Err(e),
        }
        },
        11 => {
        match registers_spec(w) {
            Ok((one, two)) => Ok(Some(InstructionView::Nand(one, two))),
            Err(e) => Err(e),
        }
        },
        12 => {
        Ok(Some(InstructionView::Not))
        },
        13 => {
        Ok(Some(InstructionView::RotateRight))
        },
        14 => {
        Ok(Some(InstructionView::RotateLeft))
        },
        15 => {
        Ok(Some(InstructionView::ShiftRight))
        },
        16 => {
        Ok(Some(InstructionView::ShiftLeft))
        },
        17 => {
        match register_spec(params) {
            Ok(r) => Ok(Some(InstructionView::PushRegister(r))),
            Err(e) => Err(e),
        }
        },
        18 => {
        match register_spec(params) {
            Ok(r) => Ok(Some(InstructionView::PopRegister(r))),
            Err(e) => Err(e),
        }
        },
        19 => {
        if contains_char(params, '#') {
            match immediate_spec(params) {
                Ok(v) => Ok(Some(InstructionView::LoadAccumulator(None, Some(v)))),
                Err(e) => Err(e),
            }
        } else {
            match address_spec(params) {
                Ok(a) => Ok(Some(InstructionView::LoadAccumulator(Some(a), None))),
                Err(e) => Err(e),
            }
        }
        },
        20 => {
        match address_spec(params) {
            Ok(a) => Ok(Some(InstructionView::StoreAccumulator(a))),
            Err(e) => Err(e),
        }
        },
        21 => {
        match register_spec(params) {
            Ok(r) => Ok(Some(InstructionView::CopyAccumulatorToRegister(r))),
            Err(e) => Err(e),
        }
        },
        22 => {
        match register_spec(params) {
            Ok(r) => Ok(Some(InstructionView::CopyRegisterToAccumulator(r))),
            Err(e) => Err(e),
        }
        },
        23 => {
        match target_pair_spec(module, params) {
            Ok((a, l)) => Ok(Some(InstructionView::BranchIfCarrySet(a, l))),
            Err(e) => Err(e),
        }
        },
        24 => {
        match target_pair_spec(module, params) {
            Ok((a, l)) => Ok(Some(InstructionView::BranchIfCarryNotSet(a, l))),
            Err(e) => Err(e),
        }
        },
        25 => {
        match target_pair_spec(module, params) {
            Ok((a, l)) => Ok(Some(InstructionView::BranchIfNegative(a, l))),
            Err(e) => Err(e),
        }
        },
        26 => {
        match target_pair_spec(module, params) {
            Ok((a, l)) => Ok(Some(InstructionView::BranchIfPositive(a, l))),
            Err(e) => Err(e),
        }
        },
        27 => {
        match compare_target_spec(module, w) {
            Ok((r, a, l)) => Ok(Some(InstructionView::BranchIfEqual(r, a, l))),
            Err(e) => Err(e),
        }
        },
        28 => {
        match compare_target_spec(module, w) {
            Ok((r, a, l)) => Ok(Some(InstructionView::BranchIfNotEqual(r, a, l))),
            Err(e) => Err(e),
        }
        },
        29 => {
        match target_pair_spec(module, params) {
            Ok((a, l)) => Ok(Some(InstructionView::BranchIfZero(a, l))),
            Err(e) => Err(e),
        }
        },
        30 => {
        match target_pair_spec(module, params) {
            Ok((a, l)) => Ok(Some(InstructionView::BranchIfZero(a, l))),
            Err(e) => Err(e),
        }
        },
        31 => {
        match target_pair_spec(module, params) {
            Ok((a, l)) => Ok(Some(InstructionView::BranchIfNotZero(a, l))),
            Err(e) => Err(e),
        }
        },
        32 => {
        match compare_target_spec(module, w) {
            Ok((r, a, l)) => Ok(Some(InstructionView::BranchIfGreater(r, a, l))),
            Err(e) => Err(e),
        }
        },
        33 => {
        match compare_target_spec(module, w) {
            Ok((r, a, l)) => Ok(Some(InstructionView::BranchIfLess(r, a, l))),
            Err(e) => Err(e),
        }
        },
        34 => {
        match target_pair_spec(module, params) {
            Ok((a, l)) => Ok(Some(InstructionView::Jump(a, l))),
            Err(e) => Err(e),
        }
        },
        35 => {
        match target_pair_spec(module, params) {
            Ok((a, l)) => Ok(Some(InstructionView::JumpSubroutine(a, l))),
            Err(e) => Err(e),
        }
        },
        36 => {
        if w.len() >= 2 {
            Ok(Some(InstructionView::ReturnFromSubroutine(qualified_local(module, w[1]) + end_suffix())))
        } else {
            Err(ParseError::WrongOperandCount)
        }
        },
        37 => {
        Ok(Some(InstructionView::PushProgramCounter))
        },
        38 => {
        Ok(Some(InstructionView::PopProgramCounter))
        },
        _ => Ok(None),
    }
}
pub open spec fn item_result_view(r: Result<Option<Instruction>, ParseError>) -> Result<Option<InstructionView>, ParseError> {
    match r {
        Ok(Some(i)) => Ok(Some(i@)),
        Ok(None) => Ok(None),
        Err(e) => Err(e),
    }
}

fn without_last(s: &Vec<char>) -> (r: Vec<char>)
    requires
        s@.len() > 0,
    ensures
        r@ == s@.drop_last(),
{
    let r = copy_range(s, 0, s.len() - 1);
    assert(r@ =~= s@.drop_last());
    r
}

fn parse_register_or_2_register_instruction(w: &Vec<Vec<char>>) -> (r: Result<(Option<Register>, Option<(Register, Register)>), ParseError>)
    ensures
        r == registers_spec(word_views(w@)),
{
    proof {
        assert(word_views(w@).len() == w@.len());
    }
    if w.len() == 2 {
        assert(word_views(w@)[1] == w@[1]@);
        match Register::from_chars(&w[1]) {
            Ok(r) => Ok((Some(r), None)),
            Err(e) => Err(e),
        }
    } else if w.len() == 3 && w[1].len() > 0 && w[1][w[1].len() - 1] == ',' {
        assert(word_views(w@)[1] == w@[1]@);
        assert(word_views(w@)[2] == w@[2]@);
        let first = without_last(&w[1]);
        match (Register::from_chars(&first), Register::from_chars(&w[2])) {
            (Ok(a), Ok(b)) => Ok((None, Some((a, b)))),
            (Err(e), _) => Err(e),
            (_, Err(e)) => Err(e),
        }
    } else {
        Err(ParseError::WrongOperandCount)
    }
}

fn target_pair(module: &Vec<char>, params: &Vec<char>) -> (r: Result<(Option<NonZeroPageAddress>, Option<String>), ParseError>)
    ensures
        match target_pair_spec(module@, params@) {
            Ok((a, l)) => r matches Ok((a2, l2)) && a2 == a && match l {
                Some(n) => l2 matches Some(n2) && n2@ == n,
                None => l2 is None,
            },
            Err(e) => r == Err::<(Option<NonZeroPageAddress>, Option<String>), ParseError>(e),
        },
{
    if has_char(params, '~') {
        if params.len() > 1 && params[0] == '~' {
            let name = copy_range(params, 1, params.len());
            assert(name@ =~= params@.drop_first());
            let q = qualified_exec(module, &name);
            Ok((None, Some(string_of(&q))))
        } else {
            Err(ParseError::InvalidTarget)
        }
    } else {
        match NonZeroPageAddress::from_chars(params) {
            Ok(a) => Ok((Some(a), None)),
            Err(e) => Err(e),
        }
    }
}

fn compare_target(module: &Vec<char>, w: &Vec<Vec<char>>) -> (r: Result<(Register, Option<NonZeroPageAddress>, Option<String>), ParseError>)
    ensures
        match compare_target_spec(module@, word_views(w@)) {
            Ok((reg, a, l)) => r matches Ok((reg2, a2, l2)) && reg2 == reg && a2 == a && match l {
                Some(n) => l2 matches Some(n2) && n2@ == n,
                None => l2 is None,
            },
            Err(e) => r == Err::<(Register, Option<NonZeroPageAddress>, Option<String>), ParseError>(e),
        },
{
    proof {
        assert(word_views(w@).len() == w@.len());
    }
    if w.len() == 3 && w[1].len() > 0 && w[1][w[1].len() - 1] == ',' {
        assert(word_views(w@)[1] == w@[1]@);
        assert(word_views(w@)[2] == w@[2]@);
        let first = without_last(&w[1]);
        match Register::from_chars(&first) {
            Ok(r) => match target_pair(module, &w[2]) {
                Ok((a, l)) => Ok((r, a, l)),
                Err(e) => Err(e),
            },
            Err(e) => Err(e),
        }
    } else {
        Err(ParseError::WrongOperandCount)
    }
}

fn as_label(l: Option<String>) -> (r: Option<Label>)
    ensures
        match l {
            Some(n) => r matches Some(x) && x.name@ == n@,
            None => r is None,
        },
{
    match l {
        Some(name) => Some(Label { name }),
        None => None,
    }
}

fn as_subroutine(l: Option<String>) -> (r: Option<Subroutine>)
    ensures
        match l {
            Some(n) => r matches Some(x) && x.name@ == n@,
            None => r is None,
        },
{
    match l {
        Some(name) => Some(Subroutine { name }),
        None => None,
    }
}

#[verifier::rlimit(100)]
fn mnemonic(module: &Vec<char>, code: u8, w: &Vec<Vec<char>>, params: &Vec<char>) -> (r: Result<Option<Instruction>, ParseError>)
    ensures
        item_result_view(r) == mnemonic_spec(module@, code, word_views(w@), params@),
{
    match code {
        1 => {
        Ok(Some(Instruction::Noop))
        },
        2 => {
        match parse_register_or_2_register_instruction(w) {
            Ok((one, two)) => Ok(Some(Instruction::Add(one, two))),
            Err(e) => Err(e),
        }
        },
        3 => {
        match parse_register_or_2_register_instruction(w) {
            Ok((one, two)) => Ok(Some(Instruction::Subtract(one, two))),
            Err(e) => Err(e),
        }
        },
        4 => {
        Ok(Some(Instruction::SetCarry))
        },
        5 => {
        Ok(Some(Instruction::ClearCarry))
        },
        6 => {
        match parse_register_or_2_register_instruction(w) {
            Ok((one, two)) => Ok(Some(Instruction::Xor(one, two))),
            Err(e) => Err(e),
        }
        },
        7 => {
        match parse_register_or_2_register_instruction(w) {
            Ok((one, two)) => Ok(Some(Instruction::Xnor(one, two))),
            Err(e) => Err(e),
        }
        },
        8 => {
        match parse_register_or_2_register_instruction(w) {
            Ok((one, two)) => Ok(Some(Instruction::Or(one, two))),
            Err(e) => Err(e),
        }
        },
        9 => {
        match parse_register_or_2_register_instruction(w) {
            Ok((one, two)) => Ok(Some(Instruction::Nor(one, two))),
            Err(e) => Err(e),
        }
        },
        10 => {
        match parse_register_or_2_register_instruction(w) {
            Ok((one, two)) => Ok(Some(Instruction::And(one, two))),
            Err(e) => Err(e),
        }
        },
        11 => {
        match parse_register_or_2_register_instruction(w) {
            Ok((one, two)) => Ok(Some(Instruction::Nand(one, two))),
            Err(e) => Err(e),
        }
        },
        12 => {
        Ok(Some(Instruction::Not))
        },
        13 => {
        Ok(Some(Instruction::RotateRight))
        },
        14 => {
        Ok(Some(Instruction::RotateLeft))
        },
        15 => {
        Ok(Some(Instruction::ShiftRight))
        },
        16 => {
        Ok(Some(Instruction::ShiftLeft))
        },
        17 => {
        match Register::from_chars(params) {
            Ok(r) => Ok(Some(Instruction::PushRegister(r))),
            Err(e) => Err(e),
        }
        },
        18 => {
        match Register::from_chars(params) {
            Ok(r) => Ok(Some(Instruction::PopRegister(r))),
            Err(e) => Err(e),
        }
        },
        19 => {
        if has_char(params, '#') {
            match Immediate::from_chars(params) {
                Ok(v) => Ok(Some(Instruction::LoadAccumulator(None, Some(v)))),
                Err(e) => Err(e),
            }
        } else {
            match Address::from_chars(params) {
                Ok(a) => Ok(Some(Instruction::LoadAccumulator(Some(a), None))),
                Err(e) => Err(e),
            }
        }
        },
        20 => {
        match Address::from_chars(params) {
            Ok(a) => Ok(Some(Instruction::StoreAccumulator(a))),
            Err(e) => Err(e),
        }
        },
        21 => {
        match Register::from_chars(params) {
            Ok(r) => Ok(Some(Instruction::CopyAccumulatorToRegister(r))),
            Err(e) => Err(e),
        }
        },
        22 => {
        match Register::from_chars(params) {
            Ok(r) => Ok(Some(Instruction::CopyRegisterToAccumulator(r))),
            Err(e) => Err(e),
        }
        },
        23 => {
        match target_pair(module, params) {
            Ok((a, l)) => Ok(Some(Instruction::BranchIfCarrySet(a, as_label(l)))),
            Err(e) => Err(e),
        }
        },
        24 => {
        match target_pair(module, params) {
            Ok((a, l)) => Ok(Some(Instruction::BranchIfCarryNotSet(a, as_label(l)))),
            Err(e) => Err(e),
        }
        },
        25 => {
        match target_pair(module, params) {
            Ok((a, l)) => Ok(Some(Instruction::BranchIfNegative(a, as_label(l)))),
            Err(e) => Err(e),
        }
        },
        26 => {
        match target_pair(module, params) {
            Ok((a, l)) => Ok(Some(Instruction::BranchIfPositive(a, as_label(l)))),
            Err(e) => Err(e),
        }
        },
        27 => {
        match compare_target(module, w) {
            Ok((r, a, l)) => Ok(Some(Instruction::BranchIfEqual(r, a, as_label(l)))),
            Err(e) => Err(e),
        }
        },
        28 => {
        match compare_target(module, w) {
            Ok((r, a, l)) => Ok(Some(Instruction::BranchIfNotEqual(r, a, as_label(l)))),
            Err(e) => Err(e),
        }
        },
        29 => {
        match target_pair(module, params) {
            Ok((a, l)) => Ok(Some(Instruction::BranchIfZero(a, as_label(l)))),
            Err(e) => Err(e),
        }
        },
        30 => {
        match target_pair(module, params) {
            Ok((a, l)) => Ok(Some(Instruction::BranchIfZero(a, as_label(l)))),
            Err(e) => Err(e),
        }
        },
        31 => {
        match target_pair(module, params) {
            Ok((a, l)) => Ok(Some(Instruction::BranchIfNotZero(a, as_label(l)))),
            Err(e) => Err(e),
        }
        },
        32 => {
        match compare_target(module, w) {
            Ok((r, a, l)) => Ok(Some(Instruction::BranchIfGreater(r, a, as_label(l)))),
            Err(e) => Err(e),
        }
        },
        33 => {
        match compare_target(module, w) {
            Ok((r, a, l)) => Ok(Some(Instruction::BranchIfLess(r, a, as_label(l)))),
            Err(e) => Err(e),
        }
        },
        34 => {
        match target_pair(module, params) {
            Ok((a, l)) => Ok(Some(Instruction::Jump(a, as_label(l)))),
            Err(e) => Err(e),
        }
        },
        35 => {
        match target_pair(module, params) {
            Ok((a, l)) => Ok(Some(Instruction::JumpSubroutine(a, as_subroutine(l)))),
            Err(e) => Err(e),
        }
        },
        36 => {
        if w.len() >= 2 {
            let local = qualified_local_exec(module, &w[1]);
            let name = concat_text(&local, "_EndSubroutine");
            Ok(Some(Instruction::ReturnFromSubroutine(Subroutine { name: string_of(&name) })))
        } else {
            Err(ParseError::WrongOperandCount)
        }
        },
        37 => {
        Ok(Some(Instruction::PushProgramCounter))
        },
        38 => {
        Ok(Some(Instruction::PopProgramCounter))
        },
        _ => Ok(None),
    }
}
/// `s` up to the first `//`, or all of `s` when it has none; the search starts at `i`.
pub open spec fn cut_from(s: Seq<char>, i: int) -> Seq<char>
    decreases s.len() - i,
{
    if i < 0 || i + 1 >= s.len() {
        s
    } else if s[i] == '/' && s[i + 1] == '/' {
        s.take(i)
    } else {
        cut_from(s, i + 1)
    }
}

/// The line without its comment.
pub open spec fn cut_comment(s: Seq<char>) -> Seq<char> {
    cut_from(s, 0)
}

/// The index of the first whitespace character of `t` at or after `i`, or its length.
pub open spec fn first_ws(t: Seq<char>, i: int) -> int
    decreases t.len() - i,
{
    if i < 0 || i >= t.len() {
        t.len() as int
    } else if is_ws(t[i]) {
        i
    } else {
        first_ws(t, i + 1)
    }
}

/// What one line holds.
pub enum LineView {
    Nothing,
    Include(Seq<char>),
    Item(InstructionView),
    Unknown,
}

pub enum ParsedLine {
    Nothing,
    Include(String),
    Item(Instruction),
    Unknown,
}

impl View for ParsedLine {
    type V = LineView;

    open spec fn view(&self) -> LineView {
        match self {
            ParsedLine::Nothing => LineView::Nothing,
            ParsedLine::Include(f) => LineView::Include(f@),
            ParsedLine::Item(i) => LineView::Item(i@),
            ParsedLine::Unknown => LineView::Unknown,
        }
    }
}

pub open spec fn line_result_view(r: Result<ParsedLine, ParseError>) -> Result<LineView, ParseError> {
    match r {
        Ok(l) => Ok(l@),
        Err(e) => Err(e),
    }
}

/// Whether a label or subroutine named `name` is among `prior`.
pub open spec fn defines(prior: Seq<InstructionView>, name: Seq<char>) -> bool {
    exists|k: int|
        0 <= k < prior.len() && (prior[k] == InstructionView::Label(name) || prior[k] == InstructionView::Subroutine(name))
}

/// A line `body:`: `sr name:` defines a subroutine, anything else a label; both are
/// qualified with the module name and must not repeat an earlier definition.
pub open spec fn label_line_spec(module: Seq<char>, body: Seq<char>, prior: Seq<InstructionView>) -> Result<LineView, ParseError> {
    if body.len() > 2 && body[0] == 's' && body[1] == 'r' && is_ws(body[2]) {
        let n = trim(body.skip(2));
        if n.len() == 0 {
            Err(ParseError::MalformedLabel)
        } else if defines(prior, qualified_local(module, n)) {
            Err(ParseError::DuplicateLabel)
        } else {
            Ok(LineView::Item(InstructionView::Subroutine(qualified_local(module, n))))
        }
    } else if body.len() == 0 {
        Err(ParseError::MalformedLabel)
    } else if defines(prior, qualified_local(module, body)) {
        Err(ParseError::DuplicateLabel)
    } else {
        Ok(LineView::Item(InstructionView::Label(qualified_local(module, body))))
    }
}

/// `#define name address`.
pub open spec fn define_spec(w: Seq<Seq<char>>) -> Result<LineView, ParseError> {
    if w.len() == 3 {
        match pointer_address_spec(w[2]) {
            Ok(a) => Ok(LineView::Item(InstructionView::Pointer(w[1], a))),
            Err(e) => Err(e),
        }
    } else {
        Err(ParseError::WrongOperandCount)
    }
}

/// `.org` alone, or `.org %address` with a 16-bit absolute address.
pub open spec fn origin_spec(w: Seq<Seq<char>>) -> Result<LineView, ParseError> {
    if w.len() == 1 {
        Ok(LineView::Item(InstructionView::SetOrigin(None)))
    } else if w.len() == 2 {
        match address_spec(w[1]) {
            Ok(a) => if a.mode == AddressMode::Absolute && a.pointer.is_none() {
                Ok(LineView::Item(InstructionView::SetOrigin(Some(a))))
            } else {
                Err(ParseError::InvalidOrigin)
            },
            Err(e) => Err(e),
        }
    } else {
        Err(ParseError::WrongOperandCount)
    }
}

/// `.word #value`.
pub open spec fn word_spec(w: Seq<Seq<char>>) -> Result<LineView, ParseError> {
    if w.len() == 2 {
        match immediate_spec(w[1]) {
            Ok(v) => Ok(LineView::Item(InstructionView::Word(v))),
            Err(e) => Err(e),
        }
    } else {
        Err(ParseError::WrongOperandCount)
    }
}

/// One source line of module `module`, after the instructions `prior` of the same file.
pub open spec fn line_spec(module: Seq<char>, line: Seq<char>, prior: Seq<InstructionView>) -> Result<LineView, ParseError> {
    let t = trim(cut_comment(line));
    if t.len() == 0 {
        Ok(LineView::Nothing)
    } else if starts_with(t, include_keyword()) {
        Ok(LineView::Include(include_target(t)))
    } else if t.last() == ':' {
        label_line_spec(module, t.drop_last(), prior)
    } else if contains_char(t, ':') {
        Err(ParseError::MalformedLabel)
    } else {
        let first = t.take(first_ws(t, 0));
        let w = words(t);
        if first == "#define"@ {
            define_spec(w)
        } else if first == ".org"@ {
            origin_spec(w)
        } else if first == ".word"@ {
            word_spec(w)
        } else {
            match mnemonic_spec(module, mnemonic_code(first), w, trim(t.skip(first_ws(t, 0)))) {
                Ok(Some(i)) => Ok(LineView::Item(i)),
                Ok(None) => Ok(LineView::Unknown),
                Err(e) => Err(e),
            }
        }
    }
}

fn cut_comment_exec(s: &Vec<char>) -> (r: Vec<char>)
    ensures
        r@ == cut_comment(s@),
{
    let mut i: usize = 0;
    while i < s.len() && i + 1 < s.len()
        invariant
            i <= s@.len(),
            cut_comment(s@) == cut_from(s@, i as int),
        decreases s@.len() - i,
    {
        if s[i] == '/' && s[i + 1] == '/' {
            return copy_range(s, 0, i);
        }
        i = i + 1;
    }
    copy_range(s, 0, s.len())
}

fn first_ws_exec(t: &Vec<char>) -> (r: usize)
    ensures
        r == first_ws(t@, 0),
        r <= t@.len(),
{
    let mut i: usize = 0;
    while i < t.len() && !(t[i] == ' ' || t[i] == '\t' || t[i] == '\r' || t[i] == '\n')
        invariant
            i <= t@.len(),
            first_ws(t@, 0) == first_ws(t@, i as int),
        decreases t@.len() - i,
    {
        i = i + 1;
    }
    i
}

fn defines_exec(prior: &Vec<Instruction>, name: &String) -> (r: bool)
    ensures
        r == defines(views(prior@), name@),
{
    let mut k: usize = 0;
    while k < prior.len()
        invariant
            k <= prior@.len(),
            forall|j: int|
                0 <= j < k ==> !(views(prior@)[j] == InstructionView::Label(name@) || views(prior@)[j]
                    == InstructionView::Subroutine(name@)),
        decreases prior@.len() - k,
    {
        let found = match &prior[k] {
            Instruction::Label(n) => *n == *name,
            Instruction::Subroutine(n) => *n == *name,
            _ => false,
        };
        if found {
            assert(views(prior@)[k as int] == prior@[k as int]@);
            return true;
        }
        assert(views(prior@)[k as int] == prior@[k as int]@);
        k = k + 1;
    }
    false
}

fn label_line(module: &Vec<char>, body: &Vec<char>, prior: &Vec<Instruction>) -> (r: Result<ParsedLine, ParseError>)
    ensures
        line_result_view(r) == label_line_spec(module@, body@, views(prior@)),
{
    if body.len() > 2 && body[0] == 's' && body[1] == 'r' && (body[2] == ' ' || body[2] == '\t' || body[2] == '\r'
        || body[2] == '\n') {
        let rest = copy_range(body, 2, body.len());
        assert(rest@ =~= body@.skip(2));
        let n = trim_chars(&rest);
        if n.len() == 0 {
            return Err(ParseError::MalformedLabel);
        }
        let name = string_of(&qualified_local_exec(module, &n));
        if defines_exec(prior, &name) {
            Err(ParseError::DuplicateLabel)
        } else {
            Ok(ParsedLine::Item(Instruction::Subroutine(name)))
        }
    } else if body.len() == 0 {
        Err(ParseError::MalformedLabel)
    } else {
        let name = string_of(&qualified_local_exec(module, body));
        if defines_exec(prior, &name) {
            Err(ParseError::DuplicateLabel)
        } else {
            Ok(ParsedLine::Item(Instruction::Label(name)))
        }
    }
}

fn define_line(w: &Vec<Vec<char>>) -> (r: Result<ParsedLine, ParseError>)
    ensures
        line_result_view(r) == define_spec(word_views(w@)),
{
    if w.len() == 3 {
        assert(word_views(w@)[1] == w@[1]@);
        assert(word_views(w@)[2] == w@[2]@);
        match PointerAddress::from_chars(&w[2]) {
            Ok(a) => Ok(ParsedLine::Item(Instruction::Pointer(string_of(&w[1]), a))),
            Err(e) => Err(e),
        }
    } else {
        Err(ParseError::WrongOperandCount)
    }
}

fn origin_line(w: &Vec<Vec<char>>) -> (r: Result<ParsedLine, ParseError>)
    ensures
        line_result_view(r) == origin_spec(word_views(w@)),
{
    if w.len() == 1 {
        Ok(ParsedLine::Item(Instruction::SetOrigin(None)))
    } else if w.len() == 2 {
        assert(word_views(w@)[1] == w@[1]@);
        match Address::from_chars(&w[1]) {
            Ok(a) => if a.mode == AddressMode::Absolute && a.pointer.is_none() {
                Ok(ParsedLine::Item(Instruction::SetOrigin(Some(a))))
            } else {
                Err(ParseError::InvalidOrigin)
            },
            Err(e) => Err(e),
        }
    } else {
        Err(ParseError::WrongOperandCount)
    }
}

fn word_line(w: &Vec<Vec<char>>) -> (r: Result<ParsedLine, ParseError>)
    ensures
        line_result_view(r) == word_spec(word_views(w@)),
{
    if w.len() == 2 {
        assert(word_views(w@)[1] == w@[1]@);
        match Immediate::from_chars(&w[1]) {
            Ok(v) => Ok(ParsedLine::Item(Instruction::Word(v))),
            Err(e) => Err(e),
        }
    } else {
        Err(ParseError::WrongOperandCount)
    }
}

/// Parses one line; see `line_spec`.
pub fn parse_line(module: &Vec<char>, line: &Vec<char>, prior: &Vec<Instruction>) -> (r: Result<ParsedLine, ParseError>)
    ensures
        line_result_view(r) == line_spec(module@, line@, views(prior@)),
{
    let cut = cut_comment_exec(line);
    let t = trim_chars(&cut);
    if t.len() == 0 {
        return Ok(ParsedLine::Nothing);
    }
    if starts_with_text(&t, "#include") {
        let name = include_name(&t);
        return Ok(ParsedLine::Include(string_of(&name)));
    }
    if t[t.len() - 1] == ':' {
        let body = without_last(&t);
        return label_line(module, &body, prior);
    }
    if has_char(&t, ':') {
        return Err(ParseError::MalformedLabel);
    }
    let split = first_ws_exec(&t);
    let first = copy_range(&t, 0, split);
    let w = split_words(&t);
    if crate::text::text_eq(&first, "#define") {
        define_line(&w)
    } else if crate::text::text_eq(&first, ".org") {
        origin_line(&w)
    } else if crate::text::text_eq(&first, ".word") {
        word_line(&w)
    } else {
        let rest = copy_range(&t, split, t.len());
        let params = trim_chars(&rest);
        let code = mnemonic_code_exec(&first);
        match mnemonic(module, code, &w, &params) {
            Ok(Some(i)) => Ok(ParsedLine::Item(i)),
            Ok(None) => Ok(ParsedLine::Unknown),
            Err(e) => Err(e),
        }
    }
}

/// The lines of `s[i..]`, split at line feeds, given the line `cur` being read and the lines
/// `done` already complete.
pub open spec fn lines_from(s: Seq<char>, i: int, cur: Seq<char>, done: Seq<Seq<char>>) -> Seq<Seq<char>>
    decreases s.len() - i,
{
    if i < 0 || i >= s.len() {
        done.push(cur)
    } else if s[i] == '\n' {
        lines_from(s, i + 1, Seq::empty(), done.push(cur))
    } else {
        lines_from(s, i + 1, cur.push(s[i]), done)
    }
}

pub open spec fn lines(s: Seq<char>) -> Seq<Seq<char>> {
    lines_from(s, 0, Seq::empty(), Seq::empty())
}

fn split_lines(s: &Vec<char>) -> (r: Vec<Vec<char>>)
    ensures
        word_views(r@) == lines(s@),
{
    let mut done: Vec<Vec<char>> = Vec::new();
    let mut cur: Vec<char> = Vec::new();
    let mut i: usize = 0;
    assert(word_views(done@) =~= Seq::<Seq<char>>::empty());
    while i < s.len()
        invariant
            i <= s@.len(),
            lines_from(s@, i as int, cur@, word_views(done@)) == lines(s@),
        decreases s@.len() - i,
    {
        let c = s[i];
        if c == '\n' {
            let ghost before = word_views(done@);
            let ghost w = cur@;
            done.push(cur);
            cur = Vec::new();
            assert(word_views(done@) =~= before.push(w));
        } else {
            cur.push(c);
        }
        i = i + 1;
    }
    let ghost before = word_views(done@);
    let ghost w = cur@;
    done.push(cur);
    assert(word_views(done@) =~= before.push(w));
    done
}

/// Where and why a file could not be parsed: the line number counts from 1, and for a
/// duplicate definition `name` is the qualified name defined twice.
#[derive(Debug, Clone, PartialEq, Eq)]
pub struct LineError {
    pub line: usize,
    pub error: ParseError,
    pub name: Option<String>,
}

pub struct LineErrorView {
    pub line: usize,
    pub error: ParseError,
    pub name: Option<Seq<char>>,
}

impl View for LineError {
    type V = LineErrorView;

    open spec fn view(&self) -> LineErrorView {
        LineErrorView {
            line: self.line,
            error: self.error,
            name: match self.name {
                Some(n) => Some(n@),
                None => None,
            },
        }
    }
}

/// The qualified name that a label or subroutine line defines.
pub open spec fn defined_name(module: Seq<char>, line: Seq<char>) -> Seq<char> {
    let t = trim(cut_comment(line));
    let body = if t.len() > 0 { t.drop_last() } else { t };
    if body.len() > 2 && body[0] == 's' && body[1] == 'r' && is_ws(body[2]) {
        qualified_local(module, trim(body.skip(2)))
    } else {
        qualified_local(module, body)
    }
}

fn defined_name_exec(module: &Vec<char>, line: &Vec<char>) -> (r: Vec<char>)
    ensures
        r@ == defined_name(module@, line@),
{
    let cut = cut_comment_exec(line);
    let t = trim_chars(&cut);
    let body = if t.len() > 0 { without_last(&t) } else { t };
    if body.len() > 2 && body[0] == 's' && body[1] == 'r' && (body[2] == ' ' || body[2] == '\t' || body[2] == '\r'
        || body[2] == '\n') {
        let rest = copy_range(&body, 2, body.len());
        assert(rest@ =~= body@.skip(2));
        let n = trim_chars(&rest);
        qualified_local_exec(module, &n)
    } else {
        qualified_local_exec(module, &body)
    }
}

/// The error for line `k` (counting from 0) of `ls` failing with `e`.
pub open spec fn line_error(module: Seq<char>, ls: Seq<Seq<char>>, k: int, e: ParseError) -> LineErrorView {
    LineErrorView {
        line: (k + 1) as usize,
        error: e,
        name: if e == ParseError::DuplicateLabel { Some(defined_name(module, ls[k])) } else { None },
    }
}

/// What one file holds: its instructions, the files it includes, and the numbers of the lines
/// that start with an unknown mnemonic and were skipped.
pub struct ParsedSource {
    pub instructions: Vec<Instruction>,
    pub includes: Vec<String>,
    pub skipped: Vec<usize>,
}

pub struct SourceView {
    pub instructions: Seq<InstructionView>,
    pub includes: Seq<Seq<char>>,
    pub skipped: Seq<usize>,
}

impl View for ParsedSource {
    type V = SourceView;

    open spec fn view(&self) -> SourceView {
        SourceView {
            instructions: views(self.instructions@),
            includes: self.includes@.map_values(|f: String| f@),
            skipped: self.skipped@,
        }
    }
}

/// The file from line `k` (counting from 0) on, after `acc` was read from the lines before.
pub open spec fn parse_from(module: Seq<char>, ls: Seq<Seq<char>>, k: int, acc: SourceView) -> Result<SourceView, LineErrorView>
    decreases ls.len() - k,
{
    if k < 0 || k >= ls.len() {
        Ok(acc)
    } else {
        match line_spec(module, ls[k], acc.instructions) {
            Err(e) => Err(line_error(module, ls, k, e)),
            Ok(LineView::Nothing) => parse_from(module, ls, k + 1, acc),
            Ok(LineView::Include(f)) => parse_from(module, ls, k + 1, SourceView { includes: acc.includes.push(f), ..acc }),
            Ok(LineView::Item(i)) => parse_from(
                module,
                ls,
                k + 1,
                SourceView { instructions: acc.instructions.push(i), ..acc },
            ),
            Ok(LineView::Unknown) => parse_from(
                module,
                ls,
                k + 1,
                SourceView { skipped: acc.skipped.push((k + 1) as usize), ..acc },
            ),
        }
    }
}

pub open spec fn empty_source() -> SourceView {
    SourceView { instructions: Seq::empty(), includes: Seq::empty(), skipped: Seq::empty() }
}

/// The contents of the file `text` of module `module`, or the first line that is malformed.
pub open spec fn source_spec(module: Seq<char>, text: Seq<char>) -> Result<SourceView, LineErrorView> {
    parse_from(module, lines(text), 0, empty_source())
}

/// Parses the text of one source file whose names are qualified with `module`.
pub fn parse(module: &str, text: &str) -> (r: Result<ParsedSource, LineError>)
    ensures
        match source_spec(module@, text@) {
            Ok(v) => r matches Ok(p) && p@ == v,
            Err(e) => r matches Err(e2) && e2@ == e,
        },
{
    let m = chars_of(module);
    let t = chars_of(text);
    let ls = split_lines(&t);
    let ghost all = word_views(ls@);
    let mut out = ParsedSource { instructions: Vec::new(), includes: Vec::new(), skipped: Vec::new() };
    assert(out@.instructions =~= Seq::<InstructionView>::empty());
    assert(out@.includes =~= Seq::<Seq<char>>::empty());
    let mut k: usize = 0;
    while k < ls.len()
        invariant
            k <= ls@.len(),
            all == word_views(ls@),
            all == lines(t@),
            t@ == text@,
            m@ == module@,
            source_spec(module@, text@) == parse_from(m@, all, k as int, out@),
        decreases ls@.len() - k,
    {
        assert(all[k as int] == ls@[k as int]@);
        let ghost before = out@;
        match parse_line(&m, &ls[k], &out.instructions) {
            Err(e) => {
                let name = if e == ParseError::DuplicateLabel {
                    Some(string_of(&defined_name_exec(&m, &ls[k])))
                } else {
                    None
                };
                return Err(LineError { line: k + 1, error: e, name });
            },
            Ok(ParsedLine::Nothing) => {},
            Ok(ParsedLine::Include(f)) => {
                out.includes.push(f);
                assert(out@.includes =~= before.includes.push(f@));
            },
            Ok(ParsedLine::Item(i)) => {
                out.instructions.push(i);
                assert(out@.instructions =~= before.instructions.push(i@));
            },
            Ok(ParsedLine::Unknown) => {
                out.skipped.push(k + 1);
            },
        }
        k = k + 1;
    }
    Ok(out)
}

/// The module name of a source file: its name without the `.gasm` extension.
pub open spec fn module_spec(filename: Seq<char>) -> Option<Seq<char>> {
    if ends_with(filename, ".gasm"@) {
        Some(filename.take(filename.len() - 5))
    } else {
        None
    }
}

pub fn module_stem(filename: &str) -> (r: Option<String>)
    ensures
        match module_spec(filename@) {
            Some(m) => r matches Some(s) && s@ == m,
            None => r is None,
        },
{
    let f = chars_of(filename);
    if crate::text::ends_with_text(&f, ".gasm") {
        proof {
            reveal_strlit(".gasm");
        }
        let stem = copy_range(&f, 0, f.len() - 5);
        Some(string_of(&stem))
    } else {
        None
    }
}

/// Whether a line holds nothing but whitespace and a comment.
pub open spec fn blank_line(line: Seq<char>) -> bool {
    trim(cut_comment(line)).len() == 0
}

proof fn lemma_blank_lines_from(module: Seq<char>, ls: Seq<Seq<char>>, k: int)
    requires
        0 <= k,
        forall|j: int| 0 <= j < ls.len() ==> blank_line(#[trigger] ls[j]),
    ensures
        parse_from(module, ls, k, empty_source()) == Ok::<SourceView, LineErrorView>(empty_source()),
    decreases ls.len() - k,
{
    if k < ls.len() {
        assert(blank_line(ls[k]));
        lemma_blank_lines_from(module, ls, k + 1);
    }
}

/// A file of blank lines and comments holds no instructions, includes nothing and skips no
/// line.
pub proof fn lemma_blank_source(module: Seq<char>, text: Seq<char>)
    requires
        forall|j: int| 0 <= j < lines(text).len() ==> blank_line(#[trigger] lines(text)[j]),
    ensures
        source_spec(module, text) == Ok::<SourceView, LineErrorView>(empty_source()),
{
    lemma_blank_lines_from(module, lines(text), 0);
}

} // verus!
