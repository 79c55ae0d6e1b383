//! The symbol table written beside an assembled image: which names are defined at which byte
//! offsets, and which names are referenced from which bytes.

use vstd::prelude::*;
use std::collections::BTreeMap;
use crate::assembler::{
    AssemblerLabel, AssemblerLabelUse, AssemblerPointer, AssemblerPointerUse, define_symbol, label_symbol,
    label_use_symbol, pointer_use_symbol, previous,
};
use crate::text::{chars_of, ends_with_text};

verus! {

#[derive(Debug, Clone, Copy, PartialEq, Eq, Structural)]
pub enum SymbolType {
    Label,
    Pointer,
    Define,
    Subroutine,
}

#[derive(Debug, Clone, PartialEq, Eq)]
pub struct Symbol {
    pub name: String,
    pub value: u16,
    pub symbol_type: SymbolType,
}

pub struct SymbolView {
    pub name: Seq<char>,
    pub value: u16,
    pub symbol_type: SymbolType,
}

impl View for Symbol {
    type V = SymbolView;

    open spec fn view(&self) -> SymbolView {
        SymbolView { name: self.name@, value: self.value, symbol_type: self.symbol_type }
    }
}

/// Definitions and uses, each keyed by byte offset into the image.
#[derive(Debug, Clone)]
pub struct SymbolTable {
    pub symbols: BTreeMap<u16, Symbol>,
    pub symbol_uses: BTreeMap<u16, Symbol>,
}

pub struct SymbolTableView {
    pub symbols: Map<u16, SymbolView>,
    pub symbol_uses: Map<u16, SymbolView>,
}

pub open spec fn symbol_map_view(m: Map<u16, Symbol>) -> Map<u16, SymbolView> {
    m.map_values(|s: Symbol| s@)
}

impl View for SymbolTable {
    type V = SymbolTableView;

    open spec fn view(&self) -> SymbolTableView {
        SymbolTableView { symbols: symbol_map_view(self.symbols@), symbol_uses: symbol_map_view(self.symbol_uses@) }
    }
}

proof fn lemma_insert_view(m: Map<u16, Symbol>, k: u16, s: Symbol)
    ensures
        symbol_map_view(m.insert(k, s)) == symbol_map_view(m).insert(k, s@),
{
    assert(symbol_map_view(m.insert(k, s)) =~= symbol_map_view(m).insert(k, s@));
}

impl SymbolTable {
    pub fn new() -> (r: SymbolTable)
        ensures
            r@.symbols == Map::<u16, SymbolView>::empty(),
            r@.symbol_uses == Map::<u16, SymbolView>::empty(),
    {
        let r = SymbolTable { symbols: BTreeMap::new(), symbol_uses: BTreeMap::new() };
        assert(r@.symbols =~= Map::<u16, SymbolView>::empty());
        assert(r@.symbol_uses =~= Map::<u16, SymbolView>::empty());
        r
    }

    /// Records a definition at byte offset `at`, replacing any there.
    pub fn define(&mut self, at: u16, symbol: Symbol)
        ensures
            final(self)@.symbols == old(self)@.symbols.insert(at, symbol@),
            final(self)@.symbol_uses == old(self)@.symbol_uses,
    {
        proof {
            lemma_insert_view(self.symbols@, at, symbol);
        }
        self.symbols.insert(at, symbol);
    }

    /// Records a use at byte offset `at`, replacing any there.
    pub fn record_use(&mut self, at: u16, symbol: Symbol)
        ensures
            final(self)@.symbol_uses == old(self)@.symbol_uses.insert(at, symbol@),
            final(self)@.symbols == old(self)@.symbols,
    {
        proof {
            lemma_insert_view(self.symbol_uses@, at, symbol);
        }
        self.symbol_uses.insert(at, symbol);
    }
}

fn is_subroutine_start(name: &String) -> (r: bool)
    ensures
        r == crate::text::ends_with(name@, crate::instruction::start_suffix()),
{
    let chars = chars_of(name.as_str());
    ends_with_text(&chars, "_Subroutine")
}

fn before(k: u16) -> (r: u16)
    ensures
        r == previous(k),
{
    if k == 0 { 65535 } else { k - 1 }
}

impl SymbolTable {
    /// Enters a label definition: a subroutine start one byte before its address, any other
    /// label at its address.
    pub fn add_label(&mut self, label: AssemblerLabel)
        ensures
            final(self)@ == label_symbol(old(self)@, label.name@, label.address),
    {
        let address = label.address;
        if is_subroutine_start(&label.name) {
            self.define(before(address), Symbol { name: label.name, value: address, symbol_type: SymbolType::Subroutine });
        } else {
            self.define(address, Symbol { name: label.name, value: address, symbol_type: SymbolType::Label });
        }
    }

    /// Enters the resolution of a label use: a call one byte before the use's index, any
    /// other use at its index.
    pub fn add_label_use(&mut self, label_use: AssemblerLabelUse, label: AssemblerLabel)
        ensures
            final(self)@ == label_use_symbol(old(self)@, label.name@, label_use.index, label.address),
    {
        if is_subroutine_start(&label.name) {
            self.record_use(
                before(label_use.index),
                Symbol { name: label.name, value: label.address, symbol_type: SymbolType::Subroutine },
            );
        } else {
            self.record_use(label_use.index, Symbol { name: label.name, value: label.address, symbol_type: SymbolType::Label });
        }
    }

    /// Enters an address-constant definition at the address it stands for.
    pub fn add_define(&mut self, define: AssemblerPointer)
        ensures
            final(self)@ == define_symbol(old(self)@, define.name@, define.address),
    {
        let v = define.address.address.value;
        self.define(v, Symbol { name: define.name, value: v, symbol_type: SymbolType::Define });
    }

    /// Enters the resolution of an address-constant use at its index.
    pub fn add_define_use(&mut self, pointer_use: AssemblerPointerUse, pointer: AssemblerPointer)
        ensures
            final(self)@ == pointer_use_symbol(old(self)@, pointer.name@, pointer_use.index, pointer.address),
    {
        let v = pointer.address.address.value;
        self.record_use(pointer_use.index, Symbol { name: pointer.name, value: v, symbol_type: SymbolType::Pointer });
    }
}

} // verus!
