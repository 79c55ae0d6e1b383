//! Operands of the assembly language: numeric literals, registers, immediates and addresses,
//! with their parsers.

use vstd::prelude::*;
use crate::text::{chars_of, copy_range, split_words, trim, trim_chars, views, words};

verus! {

#[derive(Debug, Clone, Copy, PartialEq, Eq, Structural)]
pub enum NumberType {
    Binary,
    Hex,
}

#[derive(Debug, Clone, Copy, PartialEq, Eq, Structural)]
pub enum NumberSize {
    EightBit,
    SixteenBit,
}

#[derive(Debug, Clone, Copy, PartialEq, Eq, Structural)]
pub enum AddressMode {
    Absolute,
    Indexed,
    ZeroPage,
    ZeroPageIndexed,
}

/// Why a piece of source text is not what was expected.
#[derive(Debug, Clone, Copy, PartialEq, Eq, Structural)]
pub enum ParseError {
    /// Not a hex literal, or a `^`-prefixed binary literal, of at most 16 bits.
    InvalidNumber,
    /// Not a two-digit hex (or eight-digit binary) register number below 8.
    InvalidRegister,
    /// Not `#` followed by an 8-bit literal.
    InvalidImmediate,
    /// None of the address shapes `%n`, `$n, r`, `*name`, `%*name`, `$*name, r`.
    InvalidAddress,
    /// A branch or jump to a zero-page address, or to a named address constant.
    ZeroPageTarget,
    /// An `.org` whose address is not a plain 16-bit absolute address.
    InvalidOrigin,
    /// A target that is neither `~name` nor a branch address.
    InvalidTarget,
    /// The wrong number of operands for the mnemonic or directive.
    WrongOperandCount,
    /// A label line that does not end in `:`, or has an empty name.
    MalformedLabel,
    /// A label or subroutine defined twice in one file.
    DuplicateLabel,
}

/// A numeric literal: its value, its width, and the base it was written in.
#[derive(Debug, Clone, Copy, PartialEq, Eq, Structural)]
pub struct Number {
    pub value: u16,
    pub size: NumberSize,
    pub number_type: NumberType,
}

#[derive(Debug, Clone, Copy, PartialEq, Eq, Structural)]
pub struct Register {
    pub address: u8,
}

#[derive(Debug, Clone, Copy, PartialEq, Eq, Structural)]
pub struct Immediate {
    pub value: Number,
}

/// A branch or jump target: absolute or indexed, never zero-page.
#[derive(Debug, Clone, Copy, PartialEq, Eq, Structural)]
pub struct NonZeroPageAddress {
    pub address: Number,
    pub index: Option<Register>,
    pub mode: AddressMode,
}

/// The address that a named address constant stands for.
#[derive(Debug, Clone, Copy, PartialEq, Eq, Structural)]
pub struct PointerAddress {
    pub address: Number,
    pub mode: AddressMode,
    pub index: Option<Register>,
}

#[derive(Debug, Clone, PartialEq, Eq)]
pub struct Label {
    pub name: String,
}

#[derive(Debug, Clone, PartialEq, Eq)]
pub struct Subroutine {
    pub name: String,
}

/// A named address constant and, once defined, its address.
#[derive(Debug, Clone, PartialEq, Eq)]
pub struct Pointer {
    pub name: String,
    pub address: Option<PointerAddress>,
}

/// A memory operand. When `pointer` names an address constant, `address` is a 16-bit
/// placeholder that the assembler overwrites.
#[derive(Debug, Clone, PartialEq, Eq)]
pub struct Address {
    pub address: Number,
    pub index: Option<Register>,
    pub mode: AddressMode,
    pub pointer: Option<String>,
}

pub struct AddressView {
    pub address: Number,
    pub index: Option<Register>,
    pub mode: AddressMode,
    pub pointer: Option<Seq<char>>,
}

impl View for Address {
    type V = AddressView;

    open spec fn view(&self) -> AddressView {
        AddressView {
            address: self.address,
            index: self.index,
            mode: self.mode,
            pointer: match self.pointer {
                Some(p) => Some(p@),
                None => None,
            },
        }
    }
}

pub open spec fn hex_digit(c: char) -> int {
    if '0' <= c && c <= '9' {
        c as int - '0' as int
    } else if 'a' <= c && c <= 'f' {
        c as int - 'a' as int + 10
    } else if 'A' <= c && c <= 'F' {
        c as int - 'A' as int + 10
    } else {
        -1
    }
}

/// The value of digit `c` in base 2 or 16, or -1 when it is not a digit of that base.
pub open spec fn digit_value(c: char, base: int) -> int {
    if base == 2 {
        if c == '0' {
            0
        } else if c == '1' {
            1
        } else {
            -1
        }
    } else {
        hex_digit(c)
    }
}

pub open spec fn digits_ok(s: Seq<char>, base: int) -> bool {
    forall|i: int| 0 <= i < s.len() ==> digit_value(#[trigger] s[i], base) >= 0
}

/// The value of the digit string `s`, most significant digit first.
pub open spec fn digits_value(s: Seq<char>, base: int) -> int
    decreases s.len(),
{
    if s.len() == 0 {
        0
    } else {
        digits_value(s.drop_last(), base) * base + digit_value(s.last(), base)
    }
}

/// A literal: `^` then binary digits, or hex digits. It is 8-bit when written with exactly
/// eight binary or two hex digits, 16-bit otherwise, and its value must fit in 16 bits.
pub open spec fn number_spec(s: Seq<char>) -> Result<Number, ParseError> {
    let t = trim(s);
    let binary = t.len() > 0 && t[0] == '^';
    let digits = if binary { t.drop_first() } else { t };
    let base = if binary { 2int } else { 16int };
    if digits.len() == 0 || !digits_ok(digits, base) || digits_value(digits, base) > 0xFFFF {
        Err(ParseError::InvalidNumber)
    } else {
        Ok(Number {
            value: digits_value(digits, base) as u16,
            size: if digits.len() == (if binary { 8int } else { 2int }) {
                NumberSize::EightBit
            } else {
                NumberSize::SixteenBit
            },
            number_type: if binary { NumberType::Binary } else { NumberType::Hex },
        })
    }
}

pub open spec fn register_spec(s: Seq<char>) -> Result<Register, ParseError> {
    match number_spec(s) {
        Ok(n) => if n.size == NumberSize::EightBit && n.value < 8 {
            Ok(Register { address: n.value as u8 })
        } else {
            Err(ParseError::InvalidRegister)
        },
        Err(_) => Err(ParseError::InvalidRegister),
    }
}

pub open spec fn immediate_spec(s: Seq<char>) -> Result<Immediate, ParseError> {
    let t = trim(s);
    if t.len() > 0 && t[0] == '#' {
        match number_spec(t.drop_first()) {
            Ok(n) => if n.size == NumberSize::EightBit {
                Ok(Immediate { value: n })
            } else {
                Err(ParseError::InvalidImmediate)
            },
            Err(_) => Err(ParseError::InvalidImmediate),
        }
    } else {
        Err(ParseError::InvalidImmediate)
    }
}

pub open spec fn placeholder() -> Number {
    Number { value: 0, size: NumberSize::SixteenBit, number_type: NumberType::Hex }
}

pub open spec fn plain_mode(size: NumberSize) -> AddressMode {
    if size == NumberSize::EightBit { AddressMode::ZeroPage } else { AddressMode::Absolute }
}

pub open spec fn indexed_mode(size: NumberSize) -> AddressMode {
    if size == NumberSize::EightBit { AddressMode::ZeroPageIndexed } else { AddressMode::Indexed }
}

/// The address written `body` (without `%`), with no index.
pub open spec fn plain_address_spec(body: Seq<char>) -> Result<AddressView, ParseError> {
    if body.len() > 0 && body[0] == '*' {
        if body.len() > 1 {
            Ok(AddressView { address: placeholder(), index: None, mode: AddressMode::Absolute, pointer: Some(body.drop_first()) })
        } else {
            Err(ParseError::InvalidAddress)
        }
    } else {
        match number_spec(body) {
            Ok(n) => Ok(AddressView { address: n, index: None, mode: plain_mode(n.size), pointer: None }),
            Err(e) => Err(e),
        }
    }
}

/// The address written `body` (between `$` and `,`), indexed by register `r`.
pub open spec fn indexed_address_spec(body: Seq<char>, r: Register) -> Result<AddressView, ParseError> {
    if body.len() > 0 && body[0] == '*' {
        if body.len() > 1 {
            Ok(AddressView { address: placeholder(), index: Some(r), mode: AddressMode::Indexed, pointer: Some(body.drop_first()) })
        } else {
            Err(ParseError::InvalidAddress)
        }
    } else {
        match number_spec(body) {
            Ok(n) => Ok(AddressView { address: n, index: Some(r), mode: indexed_mode(n.size), pointer: None }),
            Err(e) => Err(e),
        }
    }
}

/// A memory operand: `%n` (zero-page when `n` is 8-bit), `$n, r` (indexed by register `r`),
/// or with `*name` in place of `n` (or alone) a reference to a named address constant.
pub open spec fn address_spec(s: Seq<char>) -> Result<AddressView, ParseError> {
    let w = words(s);
    if w.len() == 1 {
        let t = w[0];
        if t[0] == '*' {
            plain_address_spec(t)
        } else if t[0] == '%' {
            plain_address_spec(t.drop_first())
        } else {
            Err(ParseError::InvalidAddress)
        }
    } else if w.len() == 2 {
        let t = w[0];
        if t.len() >= 3 && t[0] == '$' && t.last() == ',' {
            match register_spec(w[1]) {
                Ok(r) => indexed_address_spec(t.subrange(1, t.len() - 1), r),
                Err(e) => Err(e),
            }
        } else {
            Err(ParseError::InvalidAddress)
        }
    } else {
        Err(ParseError::InvalidAddress)
    }
}

pub open spec fn target_spec(s: Seq<char>) -> Result<NonZeroPageAddress, ParseError> {
    match address_spec(s) {
        Ok(a) => if a.pointer.is_none() && (a.mode == AddressMode::Absolute || a.mode == AddressMode::Indexed) {
            Ok(NonZeroPageAddress { address: a.address, index: a.index, mode: a.mode })
        } else {
            Err(ParseError::ZeroPageTarget)
        },
        Err(e) => Err(e),
    }
}

pub open spec fn pointer_address_spec(s: Seq<char>) -> Result<PointerAddress, ParseError> {
    match address_spec(s) {
        Ok(a) => if a.pointer.is_none() {
            Ok(PointerAddress { address: a.address, mode: a.mode, index: a.index })
        } else {
            Err(ParseError::InvalidAddress)
        },
        Err(e) => Err(e),
    }
}

pub open spec fn address_result_view(r: Result<Address, ParseError>) -> Result<AddressView, ParseError> {
    match r {
        Ok(a) => Ok(a@),
        Err(e) => Err(e),
    }
}

/// The bytes of a number in the image: one for an 8-bit number, two big-endian otherwise.
pub open spec fn number_bytes(n: Number) -> Seq<u8> {
    if n.size == NumberSize::EightBit {
        seq![(n.value as int % 256) as u8]
    } else {
        seq![(n.value as int / 256) as u8, (n.value as int % 256) as u8]
    }
}

proof fn lemma_value_monotone(s: Seq<char>, base: int, j: int, k: int)
    requires
        base == 2 || base == 16,
        digits_ok(s, base),
        0 <= j <= k <= s.len(),
    ensures
        digits_value(s.take(j), base) <= digits_value(s.take(k), base),
    decreases k - j,
{
    if j < k {
        lemma_value_monotone(s, base, j, k - 1);
        assert(s.take(k).drop_last() =~= s.take(k - 1));
        assert(digit_value(s[k - 1], base) >= 0);
        lemma_value_nonneg(s.take(k - 1), base);
    }
}

proof fn lemma_value_nonneg(s: Seq<char>, base: int)
    requires
        base == 2 || base == 16,
        digits_ok(s, base),
    ensures
        digits_value(s, base) >= 0,
    decreases s.len(),
{
    if s.len() > 0 {
        assert(digits_ok(s.drop_last(), base)) by {
            assert forall|i: int| 0 <= i < s.drop_last().len() implies digit_value(#[trigger] s.drop_last()[i], base) >= 0 by {
                assert(s.drop_last()[i] == s[i]);
            }
        }
        lemma_value_nonneg(s.drop_last(), base);
        assert(digit_value(s[s.len() - 1], base) >= 0);
    }
}

fn digit(c: char, base: u32) -> (r: i32)
    requires
        base == 2 || base == 16,
    ensures
        r == digit_value(c, base as int),
{
    if base == 2 {
        if c == '0' {
            0
        } else if c == '1' {
            1
        } else {
            -1
        }
    } else if '0' <= c && c <= '9' {
        (c as u32 - '0' as u32) as i32
    } else if 'a' <= c && c <= 'f' {
        (c as u32 - 'a' as u32 + 10) as i32
    } else if 'A' <= c && c <= 'F' {
        (c as u32 - 'A' as u32 + 10) as i32
    } else {
        -1
    }
}

/// The value of the digits `s[from..]`, when they are digits of `base` worth at most 0xFFFF.
fn digits_from(s: &Vec<char>, from: usize, base: u32) -> (r: Option<u16>)
    requires
        from <= s@.len(),
        base == 2 || base == 16,
    ensures
        ({
            let d = s@.skip(from as int);
            match r {
                Some(v) => digits_ok(d, base as int) && digits_value(d, base as int) == v,
                None => !digits_ok(d, base as int) || digits_value(d, base as int) > 0xFFFF,
            }
        }),
{
    let ghost d = s@.skip(from as int);
    let mut acc: u32 = 0;
    let mut i: usize = from;
    assert(d.take(0) =~= Seq::<char>::empty());
    while i < s.len()
        invariant
            from <= i <= s@.len(),
            d == s@.skip(from as int),
            base == 2 || base == 16,
            acc <= 0xFFFF,
            digits_ok(d.take(i - from), base as int),
            digits_value(d.take(i - from), base as int) == acc,
        decreases s@.len() - i,
    {
        let v = digit(s[i], base);
        if v < 0 {
            assert(d[i - from] == s@[i as int]);
            return None;
        }
        proof {
            let k = i - from;
            assert(d.take(k + 1).drop_last() =~= d.take(k));
            assert(d.take(k + 1).last() == s@[i as int]);
            assert forall|j: int| 0 <= j < k + 1 implies digit_value(#[trigger] d.take(k + 1)[j], base as int) >= 0 by {
                if j < k {
                    assert(d.take(k + 1)[j] == d.take(k)[j]);
                }
            }
        }
        acc = acc * base + v as u32;
        i = i + 1;
        if acc > 0xFFFF {
            proof {
                if digits_ok(d, base as int) {
                    lemma_value_monotone(d, base as int, i - from, d.len() as int);
                    assert(d.take(d.len() as int) =~= d);
                }
            }
            return None;
        }
    }
    assert(d.take(i - from) =~= d);
    Some(acc as u16)
}

impl Number {
    /// Reads a literal; see `number_spec`.
    pub fn from_str(value: &str) -> (r: Result<Number, ParseError>)
        ensures
            r == number_spec(value@),
    {
        let v = chars_of(value);
        Number::from_chars(&v)
    }

    pub fn from_chars(value: &Vec<char>) -> (r: Result<Number, ParseError>)
        ensures
            r == number_spec(value@),
    {
        let t = trim_chars(value);
        let binary = t.len() > 0 && t[0] == '^';
        let from: usize = if binary { 1 } else { 0 };
        let base: u32 = if binary { 2 } else { 16 };
        assert(t@.skip(from as int) == (if binary { t@.drop_first() } else { t@ }));
        if t.len() <= from {
            return Err(ParseError::InvalidNumber);
        }
        match digits_from(&t, from, base) {
            None => Err(ParseError::InvalidNumber),
            Some(value) => {
                let eight: usize = if binary { 8 } else { 2 };
                Ok(Number {
                    value,
                    size: if t.len() - from == eight { NumberSize::EightBit } else { NumberSize::SixteenBit },
                    number_type: if binary { NumberType::Binary } else { NumberType::Hex },
                })
            },
        }
    }

    pub fn to_decimal(&self) -> (r: u16)
        ensures
            r == self.value,
    {
        self.value
    }

    /// The bytes of the number, big-endian; an 8-bit number gives its low byte alone.
    pub fn to_bytes(&self) -> (r: Vec<u8>)
        ensures
            r@ == number_bytes(*self),
    {
        let low = (self.value % 256) as u8;
        if self.size == NumberSize::EightBit {
            let r = vec![low];
            r
        } else {
            let r = vec![(self.value / 256) as u8, low];
            r
        }
    }
}

impl Register {
    pub fn from_str(value: &str) -> (r: Result<Register, ParseError>)
        ensures
            r == register_spec(value@),
    {
        let v = chars_of(value);
        Register::from_chars(&v)
    }

    pub fn from_chars(value: &Vec<char>) -> (r: Result<Register, ParseError>)
        ensures
            r == register_spec(value@),
    {
        match Number::from_chars(value) {
            Ok(n) => if n.size == NumberSize::EightBit && n.value < 8 {
                Ok(Register { address: n.value as u8 })
            } else {
                Err(ParseError::InvalidRegister)
            },
            Err(_) => Err(ParseError::InvalidRegister),
        }
    }
}

impl Immediate {
    pub fn from_str(value: &str) -> (r: Result<Immediate, ParseError>)
        ensures
            r == immediate_spec(value@),
    {
        let v = chars_of(value);
        Immediate::from_chars(&v)
    }

    pub fn from_chars(value: &Vec<char>) -> (r: Result<Immediate, ParseError>)
        ensures
            r == immediate_spec(value@),
    {
        let t = trim_chars(value);
        if t.len() > 0 && t[0] == '#' {
            let rest = copy_range(&t, 1, t.len());
            assert(rest@ =~= t@.drop_first());
            match Number::from_chars(&rest) {
                Ok(n) => if n.size == NumberSize::EightBit {
                    Ok(Immediate { value: n })
                } else {
                    Err(ParseError::InvalidImmediate)
                },
                Err(_) => Err(ParseError::InvalidImmediate),
            }
        } else {
            Err(ParseError::InvalidImmediate)
        }
    }
}

fn plain_address(body: &Vec<char>) -> (r: Result<Address, ParseError>)
    ensures
        address_result_view(r) == plain_address_spec(body@),
{
    if body.len() > 0 && body[0] == '*' {
        if body.len() > 1 {
            let name = copy_range(body, 1, body.len());
            assert(name@ =~= body@.drop_first());
            Ok(Address {
                address: Number { value: 0, size: NumberSize::SixteenBit, number_type: NumberType::Hex },
                index: None,
                mode: AddressMode::Absolute,
                pointer: Some(crate::text::string_of(&name)),
            })
        } else {
            Err(ParseError::InvalidAddress)
        }
    } else {
        match Number::from_chars(body) {
            Ok(n) => Ok(Address {
                address: n,
                index: None,
                mode: if n.size == NumberSize::EightBit { AddressMode::ZeroPage } else { AddressMode::Absolute },
                pointer: None,
            }),
            Err(e) => Err(e),
        }
    }
}

fn indexed_address(body: &Vec<char>, r: Register) -> (res: Result<Address, ParseError>)
    ensures
        address_result_view(res) == indexed_address_spec(body@, r),
{
    if body.len() > 0 && body[0] == '*' {
        if body.len() > 1 {
            let name = copy_range(body, 1, body.len());
            assert(name@ =~= body@.drop_first());
            Ok(Address {
                address: Number { value: 0, size: NumberSize::SixteenBit, number_type: NumberType::Hex },
                index: Some(r),
                mode: AddressMode::Indexed,
                pointer: Some(crate::text::string_of(&name)),
            })
        } else {
            Err(ParseError::InvalidAddress)
        }
    } else {
        match Number::from_chars(body) {
            Ok(n) => Ok(Address {
                address: n,
                index: Some(r),
                mode: if n.size == NumberSize::EightBit { AddressMode::ZeroPageIndexed } else { AddressMode::Indexed },
                pointer: None,
            }),
            Err(e) => Err(e),
        }
    }
}

impl Address {
    pub fn from_str(value: &str) -> (r: Result<Address, ParseError>)
        ensures
            address_result_view(r) == address_spec(value@),
    {
        let v = chars_of(value);
        Address::from_chars(&v)
    }

    pub fn from_chars(value: &Vec<char>) -> (r: Result<Address, ParseError>)
        ensures
            address_result_view(r) == address_spec(value@),
    {
        let w = split_words(value);
        proof {
            crate::text::lemma_words_nonempty(value@);
        }
        if w.len() == 1 {
            assert(w[0]@ == words(value@)[0]);
            let t = &w[0];
            if t[0] == '*' {
                plain_address(t)
            } else if t[0] == '%' {
                let body = copy_range(t, 1, t.len());
                assert(body@ =~= t@.drop_first());
                plain_address(&body)
            } else {
                Err(ParseError::InvalidAddress)
            }
        } else if w.len() == 2 {
            assert(w[0]@ == words(value@)[0]);
            assert(w[1]@ == words(value@)[1]);
            let t = &w[0];
            if t.len() >= 3 && t[0] == '$' && t[t.len() - 1] == ',' {
                match Register::from_chars(&w[1]) {
                    Ok(r) => {
                        let body = copy_range(t, 1, t.len() - 1);
                        indexed_address(&body, r)
                    },
                    Err(e) => Err(e),
                }
            } else {
                Err(ParseError::InvalidAddress)
            }
        } else {
            Err(ParseError::InvalidAddress)
        }
    }
}

impl NonZeroPageAddress {
    pub fn from_str(value: &str) -> (r: Result<NonZeroPageAddress, ParseError>)
        ensures
            r == target_spec(value@),
    {
        let v = chars_of(value);
        NonZeroPageAddress::from_chars(&v)
    }

    pub fn from_chars(value: &Vec<char>) -> (r: Result<NonZeroPageAddress, ParseError>)
        ensures
            r == target_spec(value@),
    {
        match Address::from_chars(value) {
            Ok(a) => if a.pointer.is_none() && (a.mode == AddressMode::Absolute || a.mode == AddressMode::Indexed) {
                Ok(NonZeroPageAddress { address: a.address, index: a.index, mode: a.mode })
            } else {
                Err(ParseError::ZeroPageTarget)
            },
            Err(e) => Err(e),
        }
    }
}

impl PointerAddress {
    pub fn from_str(value: &str) -> (r: Result<PointerAddress, ParseError>)
        ensures
            r == pointer_address_spec(value@),
    {
        let v = chars_of(value);
        PointerAddress::from_chars(&v)
    }

    pub fn from_chars(value: &Vec<char>) -> (r: Result<PointerAddress, ParseError>)
        ensures
            r == pointer_address_spec(value@),
    {
        match Address::from_chars(value) {
            Ok(a) => if a.pointer.is_none() {
                Ok(PointerAddress { address: a.address, mode: a.mode, index: a.index })
            } else {
                Err(ParseError::InvalidAddress)
            },
            Err(e) => Err(e),
        }
    }
}

} // verus!
