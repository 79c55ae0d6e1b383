//! The disassembler: renders decoded instructions as source lines, one line per byte.

use vstd::prelude::*;
use crate::decoder::{Address, Instruction, decode_at, parse_instruction};
use crate::parser::concat_text;
use crate::symbols::{Symbol, SymbolTable, SymbolTableView, SymbolType, SymbolView};
use crate::text::{chars_of, copy_range, ends_with, ends_with_text, starts_with, starts_with_text, string_of};

verus! {

pub open spec fn hex_digits() -> Seq<char> {
    "0123456789abcdef"@
}

/// Two lower-case hex digits.
pub open spec fn hex2(b: u8) -> Seq<char> {
    seq![hex_digits()[b as int / 16], hex_digits()[b as int % 16]]
}

/// Four lower-case hex digits.
pub open spec fn hex4(w: u16) -> Seq<char> {
    hex2((w as int / 256) as u8) + hex2((w as int % 256) as u8)
}

/// An address operand as source text: `%` for a plain address, `$` and `, r` for an indexed
/// one; two digits when it was encoded with one address byte, four otherwise.
pub open spec fn address_text(a: Address) -> Seq<char> {
    let base = if a.zero_page { hex2((a.address as int % 256) as u8) } else { hex4(a.address) };
    match a.index {
        Some(i) => seq!['$'] + base + seq![',', ' '] + hex2(i),
        None => seq!['%'] + base,
    }
}

pub open spec fn with_reg(word: Seq<char>, r: u8) -> Seq<char> {
    word + seq![' '] + hex2(r)
}

pub open spec fn with_address(word: Seq<char>, a: Address) -> Seq<char> {
    word + seq![' '] + address_text(a)
}

pub open spec fn with_register_address(word: Seq<char>, r: u8, a: Address) -> Seq<char> {
    word + seq![' '] + hex2(r) + seq![',', ' '] + address_text(a)
}

pub open spec fn with_immediate(v: u8) -> Seq<char> {
    "lda"@ + seq![' ', '#'] + hex2(v)
}

pub open spec fn alu_text(word: Seq<char>, one: Option<u8>, two: Option<(u8, u8)>) -> Seq<char> {
    match (one, two) {
        (Some(r), _) => with_reg(word, r),
        (None, Some((a, b))) => word + seq![' '] + hex2(a) + seq![',', ' '] + hex2(b),
        (None, None) => Seq::empty(),
    }
}

/// The source line of a decoded instruction.
pub open spec fn instruction_text(i: Instruction) -> Seq<char> {
    match i {
        Instruction::Noop => "noop"@,
        Instruction::SetCarry => "sc"@,
        Instruction::ClearCarry => "clc"@,
        Instruction::Not => "not"@,
        Instruction::RotateRight => "ror"@,
        Instruction::RotateLeft => "rol"@,
        Instruction::ShiftRight => "shr"@,
        Instruction::ShiftLeft => "shl"@,
        Instruction::PushProgramCounter => "phpc"@,
        Instruction::PopProgramCounter => "plpc"@,
        Instruction::PopProgramCounterSubroutine => "rts"@,
        Instruction::Add(one, two) => alu_text("add"@, one, two),
        Instruction::Subtract(one, two) => alu_text("sub"@, one, two),
        Instruction::Xor(one, two) => alu_text("xor"@, one, two),
        Instruction::Xnor(one, two) => alu_text("xnor"@, one, two),
        Instruction::Or(one, two) => alu_text("or"@, one, two),
        Instruction::Nor(one, two) => alu_text("nor"@, one, two),
        Instruction::And(one, two) => alu_text("and"@, one, two),
        Instruction::Nand(one, two) => alu_text("nand"@, one, two),
        Instruction::PushRegisterToStack(r) => with_reg("phr"@, r),
        Instruction::PopRegisterFromStack(r) => with_reg("plr"@, r),
        Instruction::CopyAccumulatorToRegister(r) => with_reg("cpa"@, r),
        Instruction::CopyRegisterToAccumulator(r) => with_reg("cpr"@, r),
        Instruction::LoadAccumulator(address, immediate) => match (address, immediate) {
            (Some(a), _) => with_address("lda"@, a),
            (None, Some(v)) => with_immediate(v),
            (None, None) => Seq::empty(),
        },
        Instruction::StoreAccumulator(a) => with_address("sta"@, a),
        Instruction::BranchCarrySet(a) => with_address("bcs"@, a),
        Instruction::BranchCarryClear(a) => with_address("bcc"@, a),
        Instruction::BranchNegative(a) => with_address("bn"@, a),
        Instruction::BranchPositive(a) => with_address("bp"@, a),
        Instruction::BranchZero(a) => with_address("bz"@, a),
        Instruction::BranchNotZero(a) => with_address("bnz"@, a),
        Instruction::Jump(a) => with_address("jmp"@, a),
        Instruction::BranchEqual(r, a) => with_register_address("beq"@, r, a),
        Instruction::BranchNotEqual(r, a) => with_register_address("bne"@, r, a),
        Instruction::BranchGreater(r, a) => with_register_address("bg"@, r, a),
        Instruction::BranchLess(r, a) => with_register_address("bl"@, r, a),
    }
}

fn hex_char(d: u8) -> (r: char)
    requires
        d < 16,
    ensures
        r == hex_digits()[d as int],
{
    proof {
        reveal_strlit("0123456789abcdef");
    }
    "0123456789abcdef".get_char(d as usize)
}

fn push_hex2(v: &mut Vec<char>, b: u8)
    ensures
        final(v)@ == old(v)@ + hex2(b),
{
    v.push(hex_char(b / 16));
    v.push(hex_char(b % 16));
    assert(final(v)@ =~= old(v)@ + hex2(b)) by {
        assert(v@ =~= old(v)@ + hex2(b));
    }
}

fn push_address(v: &mut Vec<char>, a: Address)
    ensures
        final(v)@ == old(v)@ + address_text(a),
{
    let ghost start = v@;
    match a.index {
        Some(_) => v.push('$'),
        None => v.push('%'),
    }
    if a.zero_page {
        push_hex2(v, (a.address % 256) as u8);
    } else {
        push_hex2(v, (a.address / 256) as u8);
        push_hex2(v, (a.address % 256) as u8);
    }
    match a.index {
        Some(i) => {
            v.push(',');
            v.push(' ');
            push_hex2(v, i);
        },
        None => {},
    }
    assert(v@ =~= start + address_text(a));
}

fn text_of(word: &str) -> (r: Vec<char>)
    ensures
        r@ == word@,
{
    chars_of(word)
}

fn with_reg_exec(word: &str, r: u8) -> (res: Vec<char>)
    ensures
        res@ == with_reg(word@, r),
{
    let mut v = chars_of(word);
    v.push(' ');
    push_hex2(&mut v, r);
    assert(v@ =~= with_reg(word@, r));
    v
}

fn with_address_exec(word: &str, a: Address) -> (res: Vec<char>)
    ensures
        res@ == with_address(word@, a),
{
    let mut v = chars_of(word);
    v.push(' ');
    push_address(&mut v, a);
    assert(v@ =~= with_address(word@, a));
    v
}

fn with_register_address_exec(word: &str, r: u8, a: Address) -> (res: Vec<char>)
    ensures
        res@ == with_register_address(word@, r, a),
{
    let mut v = chars_of(word);
    v.push(' ');
    push_hex2(&mut v, r);
    v.push(',');
    v.push(' ');
    push_address(&mut v, a);
    assert(v@ =~= with_register_address(word@, r, a));
    v
}

fn with_immediate_exec(value: u8) -> (res: Vec<char>)
    ensures
        res@ == with_immediate(value),
{
    let mut v = chars_of("lda");
    v.push(' ');
    v.push('#');
    push_hex2(&mut v, value);
    assert(v@ =~= with_immediate(value));
    v
}

fn alu_text_exec(word: &str, one: Option<u8>, two: Option<(u8, u8)>) -> (res: Vec<char>)
    ensures
        res@ == alu_text(word@, one, two),
{
    match (one, two) {
        (Some(r), _) => with_reg_exec(word, r),
        (None, Some((a, b))) => {
            let mut v = chars_of(word);
            v.push(' ');
            push_hex2(&mut v, a);
            v.push(',');
            v.push(' ');
            push_hex2(&mut v, b);
            assert(v@ =~= alu_text(word@, one, two));
            v
        },
        (None, None) => Vec::new(),
    }
}

pub fn instruction_text_exec(i: &Instruction) -> (r: Vec<char>)
    ensures
        r@ == instruction_text(*i),
{
    match *i {
        Instruction::Noop => text_of("noop"),
        Instruction::SetCarry => text_of("sc"),
        Instruction::ClearCarry => text_of("clc"),
        Instruction::Not => text_of("not"),
        Instruction::RotateRight => text_of("ror"),
        Instruction::RotateLeft => text_of("rol"),
        Instruction::ShiftRight => text_of("shr"),
        Instruction::ShiftLeft => text_of("shl"),
        Instruction::PushProgramCounter => text_of("phpc"),
        Instruction::PopProgramCounter => text_of("plpc"),
        Instruction::PopProgramCounterSubroutine => text_of("rts"),
        Instruction::Add(one, two) => alu_text_exec("add", one, two),
        Instruction::Subtract(one, two) => alu_text_exec("sub", one, two),
        Instruction::Xor(one, two) => alu_text_exec("xor", one, two),
        Instruction::Xnor(one, two) => alu_text_exec("xnor", one, two),
        Instruction::Or(one, two) => alu_text_exec("or", one, two),
        Instruction::Nor(one, two) => alu_text_exec("nor", one, two),
        Instruction::And(one, two) => alu_text_exec("and", one, two),
        Instruction::Nand(one, two) => alu_text_exec("nand", one, two),
        Instruction::PushRegisterToStack(r) => with_reg_exec("phr", r),
        Instruction::PopRegisterFromStack(r) => with_reg_exec("plr", r),
        Instruction::CopyAccumulatorToRegister(r) => with_reg_exec("cpa", r),
        Instruction::CopyRegisterToAccumulator(r) => with_reg_exec("cpr", r),
        Instruction::LoadAccumulator(address, immediate) => match (address, immediate) {
            (Some(a), _) => with_address_exec("lda", a),
            (None, Some(v)) => with_immediate_exec(v),
            (None, None) => Vec::new(),
        },
        Instruction::StoreAccumulator(a) => with_address_exec("sta", a),
        Instruction::BranchCarrySet(a) => with_address_exec("bcs", a),
        Instruction::BranchCarryClear(a) => with_address_exec("bcc", a),
        Instruction::BranchNegative(a) => with_address_exec("bn", a),
        Instruction::BranchPositive(a) => with_address_exec("bp", a),
        Instruction::BranchZero(a) => with_address_exec("bz", a),
        Instruction::BranchNotZero(a) => with_address_exec("bnz", a),
        Instruction::Jump(a) => with_address_exec("jmp", a),
        Instruction::BranchEqual(r, a) => with_register_address_exec("beq", r, a),
        Instruction::BranchNotEqual(r, a) => with_register_address_exec("bne", r, a),
        Instruction::BranchGreater(r, a) => with_register_address_exec("bg", r, a),
        Instruction::BranchLess(r, a) => with_register_address_exec("bl", r, a),
    }
}

impl Address {
    /// The address as source text; see `address_text`.
    pub fn to_text(&self) -> (r: String)
        ensures
            r@ == address_text(*self),
    {
        let mut v: Vec<char> = Vec::new();
        push_address(&mut v, *self);
        assert(v@ =~= address_text(*self));
        string_of(&v)
    }
}

pub open spec fn blank_lines(n: nat) -> Seq<Seq<char>> {
    Seq::new(n, |k: int| Seq::<char>::empty())
}

/// One line per instruction followed by a blank line for each of its operand bytes, so that
/// line numbers follow byte offsets.
pub open spec fn raw_lines(instructions: Seq<Instruction>, skip: Seq<u8>) -> Seq<Seq<char>>
    decreases instructions.len(),
{
    if instructions.len() == 0 || skip.len() < instructions.len() {
        Seq::empty()
    } else {
        let k = instructions.len() - 1;
        raw_lines(instructions.drop_last(), skip.take(k)) + seq![instruction_text(instructions[k])] + blank_lines(
            skip[k] as nat,
        )
    }
}

/// Whether the two lines are a program-counter push followed by an absolute jump: a call.
pub open spec fn is_call(first: Seq<char>, second: Seq<char>) -> bool {
    starts_with(first, "phpc"@) && starts_with(second, "jmp %"@)
}

/// The lines with each call collapsed into `jsr target` on the push's line and a blank line
/// in place of the jump.
pub open spec fn collapse_calls(raw: Seq<Seq<char>>) -> Seq<Seq<char>> {
    Seq::new(
        raw.len(),
        |k: int|
            if k + 1 < raw.len() && is_call(raw[k], raw[k + 1]) {
                "jsr "@ + raw[k + 1].skip(4)
            } else if k >= 1 && is_call(raw[k - 1], raw[k]) {
                Seq::empty()
            } else {
                raw[k]
            },
    )
}

pub open spec fn string_views(s: Seq<String>) -> Seq<Seq<char>> {
    s.map_values(|x: String| x@)
}

fn push_line(lines: &mut Vec<Vec<char>>, line: Vec<char>)
    ensures
        crate::text::views(final(lines)@) == crate::text::views(old(lines)@).push(line@),
{
    let ghost before = crate::text::views(lines@);
    let ghost l = line@;
    lines.push(line);
    assert(crate::text::views(lines@) =~= before.push(l));
}

/// Renders decoded instructions, each followed by blank lines for its entry of
/// `bytes_to_skip` (its count of operand bytes), with calls collapsed; see `collapse_calls`.
pub fn disassemble(instructions: Vec<Instruction>, bytes_to_skip: Vec<u8>) -> (r: Vec<String>)
    requires
        bytes_to_skip@.len() >= instructions@.len(),
    ensures
        string_views(r@) == collapse_calls(raw_lines(instructions@, bytes_to_skip@.take(instructions@.len() as int))),
{
    let mut raw: Vec<Vec<char>> = Vec::new();
    let mut k: usize = 0;
    assert(crate::text::views(raw@) =~= raw_lines(instructions@.take(0), bytes_to_skip@.take(0)));
    while k < instructions.len()
        invariant
            k <= instructions@.len() <= bytes_to_skip@.len(),
            crate::text::views(raw@) == raw_lines(instructions@.take(k as int), bytes_to_skip@.take(k as int)),
        decreases instructions@.len() - k,
    {
        let ghost before = crate::text::views(raw@);
        push_line(&mut raw, instruction_text_exec(&instructions[k]));
        let n = bytes_to_skip[k];
        let mut j: u8 = 0;
        let ghost with_text = crate::text::views(raw@);
        assert(with_text =~= before + seq![instruction_text(instructions@[k as int])]);
        while j < n
            invariant
                j <= n,
                crate::text::views(raw@) == with_text + blank_lines(j as nat),
            decreases n - j,
        {
            push_line(&mut raw, Vec::new());
            j = j + 1;
            assert(crate::text::views(raw@) =~= with_text + blank_lines(j as nat));
        }
        k = k + 1;
        proof {
            let ins = instructions@.take(k as int);
            let sk = bytes_to_skip@.take(k as int);
            assert(ins.drop_last() =~= instructions@.take(k - 1));
            assert(sk.take(k - 1) =~= bytes_to_skip@.take(k - 1));
            assert(ins[k - 1] == instructions@[k - 1]);
            assert(sk[k - 1] == bytes_to_skip@[k - 1]);
        }
    }
    assert(instructions@.take(k as int) =~= instructions@);
    let ghost rv = crate::text::views(raw@);
    let mut result: Vec<String> = Vec::new();
    let mut k: usize = 0;
    while k < raw.len()
        invariant
            k <= raw@.len(),
            rv == crate::text::views(raw@),
            string_views(result@) == collapse_calls(rv).take(k as int),
        decreases raw@.len() - k,
    {
        let ghost before = string_views(result@);
        assert(rv[k as int] == raw@[k as int]@);
        let line: Vec<char> = if k + 1 < raw.len() && starts_with_text(&raw[k], "phpc") && starts_with_text(
            &raw[k + 1],
            "jmp %",
        ) {
            assert(rv[k + 1] == raw@[k + 1]@);
            proof {
                reveal_strlit("jmp %");
            }
            let target = copy_range(&raw[k + 1], 4, raw[k + 1].len());
            assert(target@ =~= rv[k + 1].skip(4));
            let mut l = chars_of("jsr ");
            let l2 = crate::text::concat(&l, &target);
            l2
        } else if k >= 1 && starts_with_text(&raw[k - 1], "phpc") && starts_with_text(&raw[k], "jmp %") {
            assert(rv[k - 1] == raw@[k - 1]@);
            Vec::new()
        } else {
            if k + 1 < raw.len() {
                assert(rv[k + 1] == raw@[k + 1]@);
            }
            if k >= 1 {
                assert(rv[k - 1] == raw@[k - 1]@);
            }
            copy_range(&raw[k], 0, raw[k].len())
        };
        assert(line@ == collapse_calls(rv)[k as int]);
        let s = string_of(&line);
        result.push(s);
        k = k + 1;
        assert(string_views(result@) =~= collapse_calls(rv).take(k as int)) by {
            assert(string_views(result@) =~= before.push(line@));
        }
    }
    assert(collapse_calls(rv).take(k as int) =~= collapse_calls(rv));
    result
}

/// The instructions found by decoding from `pc` up to `limit`: after an instruction the walk
/// continues past its operand bytes, after bytes that do not decode it moves on by one. Only
/// those starting within `start..=end` are kept, with their operand-byte counts and offsets.
pub open spec fn window_from(memory: Seq<u8>, pc: int, start: int, end: int, limit: int) -> Seq<(Instruction, u8, u32)>
    decreases (if pc < limit { limit - pc } else { 0 }),
{
    if pc < 0 || pc >= limit || limit > 65536 {
        Seq::empty()
    } else {
        match decode_at(memory, pc as u16) {
            Ok((i, n)) => (if start <= pc <= end {
                seq![(i, n, pc as u32)]
            } else {
                Seq::empty()
            }) + window_from(memory, pc + n + 1, start, end, limit),
            Err(_) => window_from(memory, pc + 1, start, end, limit),
        }
    }
}

/// The first address the live disassembly decodes from.
pub const WINDOW_ORIGIN: u32 = 0x0200;

pub open spec fn window_limit(end: u32) -> int {
    if end > 0xFF00 { end as int } else { 0xFF00 }
}

/// Decodes `memory` from 0x0200 up to 0xFF00 (or `end`, when later), keeping the
/// instructions that start within `start..=end`; see `window_from`.
pub fn window(memory: &[u8], start: u32, end: u32) -> (r: Vec<(Instruction, u8, u32)>)
    requires
        memory@.len() == 65536,
        end <= 65535,
    ensures
        r@ == window_from(memory@, WINDOW_ORIGIN as int, start as int, end as int, window_limit(end)),
{
    let limit: u32 = if end > 0xFF00 { end } else { 0xFF00 };
    let ghost total = window_from(memory@, WINDOW_ORIGIN as int, start as int, end as int, limit as int);
    let mut found: Vec<(Instruction, u8, u32)> = Vec::new();
    let mut pc: u32 = WINDOW_ORIGIN;
    assert(found@ + window_from(memory@, pc as int, start as int, end as int, limit as int) =~= total);
    while pc < limit
        invariant
            limit as int == window_limit(end),
            limit <= 65535,
            memory@.len() == 65536,
            pc <= limit + 4 + 1,
            found@ + window_from(memory@, pc as int, start as int, end as int, limit as int) == total,
        decreases limit + 5 - pc,
    {
        let ghost before = found@;
        match parse_instruction(memory, pc as u16) {
            Ok((i, n)) => {
                if start <= pc && pc <= end {
                    found.push((i, n, pc));
                    assert(found@ =~= before + seq![(i, n, pc)]);
                } else {
                    assert(found@ =~= before + Seq::<(Instruction, u8, u32)>::empty());
                }
                assert(n <= 4) by {
                    crate::decoder::lemma_operand_count(
                        crate::decoder::byte_at(memory@, pc as u16, 0),
                        crate::decoder::byte_at(memory@, pc as u16, 1),
                        crate::decoder::byte_at(memory@, pc as u16, 2),
                        crate::decoder::byte_at(memory@, pc as u16, 3),
                        crate::decoder::byte_at(memory@, pc as u16, 4),
                    );
                }
                pc = pc + n as u32 + 1;
            },
            Err(_) => {
                pc = pc + 1;
            },
        }
    }
    assert(window_from(memory@, pc as int, start as int, end as int, limit as int) == Seq::<(Instruction, u8, u32)>::empty());
    assert(found@ =~= total);
    found
}

/// The name a symbol is shown by: a subroutine without its `_Subroutine` suffix.
pub open spec fn shown_name(s: SymbolView) -> Seq<char> {
    if s.symbol_type == SymbolType::Subroutine && ends_with(s.name, crate::instruction::start_suffix()) {
        s.name.take(s.name.len() - crate::instruction::start_suffix().len())
    } else {
        s.name
    }
}

/// How a use is shown after the line: `*name` for an address constant, `~name` otherwise,
/// then the value it resolved to.
pub open spec fn use_text(s: SymbolView) -> Seq<char> {
    seq![' ', if s.symbol_type == SymbolType::Pointer { '*' } else { '~' }] + shown_name(s) + seq![':', ' ', '%'] + hex4(
        s.value,
    )
}

/// How a definition is shown before the line: `sr name: ` for a subroutine, `name: ` otherwise.
pub open spec fn definition_text(s: SymbolView) -> Seq<char> {
    if s.symbol_type == SymbolType::Subroutine {
        "sr "@ + shown_name(s) + seq![':', ' ']
    } else {
        s.name + seq![':', ' ']
    }
}

/// The line of memory offset `index` with the table's definition there in front and its use
/// there behind.
pub open spec fn decorate_spec(line: Seq<char>, index: u16, t: SymbolTableView) -> Seq<char> {
    (if t.symbols.contains_key(index) {
        definition_text(t.symbols[index])
    } else {
        Seq::empty()
    }) + line + (if t.symbol_uses.contains_key(index) {
        use_text(t.symbol_uses[index])
    } else {
        Seq::empty()
    })
}

fn shown_name_exec(s: &Symbol) -> (r: Vec<char>)
    ensures
        r@ == shown_name(s@),
{
    let c = chars_of(s.name.as_str());
    if s.symbol_type == SymbolType::Subroutine && ends_with_text(&c, "_Subroutine") {
        let n = "_Subroutine".unicode_len();
        let r = copy_range(&c, 0, c.len() - n);
        assert(r@ =~= c@.take(c@.len() - n));
        r
    } else {
        c
    }
}

/// Decorates the line shown at memory offset `index` with the symbols recorded there; see
/// `decorate_spec`.
pub fn decorate(line: &Vec<char>, index: u16, table: &SymbolTable) -> (r: Vec<char>)
    ensures
        r@ == decorate_spec(line@, index, table@),
{
    let mut v: Vec<char> = Vec::new();
    match table.symbols.get(&index) {
        Some(sym) => {
            assert(table@.symbols.contains_key(index) && table@.symbols[index] == sym@);
            let name = shown_name_exec(sym);
            if sym.symbol_type == SymbolType::Subroutine {
                v = crate::text::concat(&chars_of("sr "), &name);
            } else {
                v = chars_of(sym.name.as_str());
            }
            v.push(':');
            v.push(' ');
        },
        None => {
            assert(!table@.symbols.contains_key(index));
        },
    }
    let ghost front = v@;
    assert(front =~= if table@.symbols.contains_key(index) {
        definition_text(table@.symbols[index])
    } else {
        Seq::empty()
    });
    let mut r = crate::text::concat(&v, line);
    match table.symbol_uses.get(&index) {
        Some(sym) => {
            assert(table@.symbol_uses.contains_key(index) && table@.symbol_uses[index] == sym@);
            let ghost before = r@;
            r.push(' ');
            r.push(if sym.symbol_type == SymbolType::Pointer { '*' } else { '~' });
            let name = shown_name_exec(sym);
            let mut r2 = crate::text::concat(&r, &name);
            r2.push(':');
            r2.push(' ');
            r2.push('%');
            push_hex2(&mut r2, (sym.value / 256) as u8);
            push_hex2(&mut r2, (sym.value % 256) as u8);
            assert(r2@ =~= before + use_text(sym@));
            r = r2;
        },
        None => {
            assert(!table@.symbol_uses.contains_key(index));
        },
    }
    assert(r@ =~= decorate_spec(line@, index, table@));
    r
}

} // verus!
