//! The symbols of an assembly program.
//!
//! A symbol is a name for an address. Some are predefined: `SP`, `LCL`,
//! `ARG`, `THIS` and `THAT` for cells 0 to 4, `R0` to `R15` for cells 0 to
//! 15, `SCREEN` and `KBD` for the screen and the keyboard. Labels name the
//! instruction that follows them. Any other symbol is a variable, and gets
//! the next free cell from 16 on when it is first met.

use vstd::prelude::*;
use crate::text::{bytes_equal, is_digit, is_digit_spec, spells, spells_spec};

verus! {

/// Address of the first variable.
pub const FIRST_VARIABLE: u16 = 16;

/// The largest address: 15 bits.
pub const LAST_ADDRESS: u16 = 32767;

/// Whether `byte` may stand in a symbol: a letter, a digit, or one of `_`,
/// `.`, `$` and `:`.
pub open spec fn is_symbol_byte_spec(byte: u8) -> bool {
    (65 <= byte <= 90) || (97 <= byte <= 122) || is_digit_spec(byte) || byte == 95 || byte == 46
        || byte == 36 || byte == 58
}

/// Whether `byte` may stand in a symbol: a letter, a digit, or one of `_`,
/// `.`, `$` and `:`.
#[verifier::when_used_as_spec(is_symbol_byte_spec)]
pub fn is_symbol_byte(byte: u8) -> (ok: bool)
    ensures
        ok == is_symbol_byte_spec(byte),
{
    (65 <= byte && byte <= 90) || (97 <= byte && byte <= 122) || is_digit(byte) || byte == 95
        || byte == 46 || byte == 36 || byte == 58
}

/// Whether `name` is a symbol: not empty, made of symbol bytes, and not
/// starting with a digit.
pub open spec fn is_symbol_spec(name: Seq<u8>) -> bool {
    name.len() > 0 && !is_digit_spec(name[0]) && forall|i: int|
        0 <= i < name.len() ==> is_symbol_byte_spec(#[trigger] name[i])
}

/// Whether `name` is a symbol.
pub fn is_symbol(name: &[u8]) -> (ok: bool)
    ensures
        ok == is_symbol_spec(name@),
{
    if name.len() == 0 || is_digit(name[0]) {
        return false;
    }
    let mut i: usize = 0;
    while i < name.len()
        invariant
            i <= name.len(),
            forall|k: int| 0 <= k < i ==> is_symbol_byte_spec(#[trigger] name@[k]),
        decreases name.len() - i,
    {
        if !is_symbol_byte(name[i]) {
            return false;
        }
        i += 1;
    }
    true
}

/// The address of the predefined symbol `name`.
pub open spec fn predefined_spec(name: Seq<u8>) -> Option<u16> {
    if spells_spec(name, "SP") {
        Some(0)
    } else if spells_spec(name, "LCL") {
        Some(1)
    } else if spells_spec(name, "ARG") {
        Some(2)
    } else if spells_spec(name, "THIS") {
        Some(3)
    } else if spells_spec(name, "THAT") {
        Some(4)
    } else if spells_spec(name, "R0") {
        Some(0)
    } else if spells_spec(name, "R1") {
        Some(1)
    } else if spells_spec(name, "R2") {
        Some(2)
    } else if spells_spec(name, "R3") {
        Some(3)
    } else if spells_spec(name, "R4") {
        Some(4)
    } else if spells_spec(name, "R5") {
        Some(5)
    } else if spells_spec(name, "R6") {
        Some(6)
    } else if spells_spec(name, "R7") {
        Some(7)
    } else if spells_spec(name, "R8") {
        Some(8)
    } else if spells_spec(name, "R9") {
        Some(9)
    } else if spells_spec(name, "R10") {
        Some(10)
    } else if spells_spec(name, "R11") {
        Some(11)
    } else if spells_spec(name, "R12") {
        Some(12)
    } else if spells_spec(name, "R13") {
        Some(13)
    } else if spells_spec(name, "R14") {
        Some(14)
    } else if spells_spec(name, "R15") {
        Some(15)
    } else if spells_spec(name, "SCREEN") {
        Some(16384)
    } else if spells_spec(name, "KBD") {
        Some(24576)
    } else {
        None
    }
}

/// The address of the predefined symbol `name`.
pub fn predefined(name: &[u8]) -> (address: Option<u16>)
    ensures
        address == predefined_spec(name@),
{
    if spells(name, "SP") {
        Some(0)
    } else if spells(name, "LCL") {
        Some(1)
    } else if spells(name, "ARG") {
        Some(2)
    } else if spells(name, "THIS") {
        Some(3)
    } else if spells(name, "THAT") {
        Some(4)
    } else if spells(name, "R0") {
        Some(0)
    } else if spells(name, "R1") {
        Some(1)
    } else if spells(name, "R2") {
        Some(2)
    } else if spells(name, "R3") {
        Some(3)
    } else if spells(name, "R4") {
        Some(4)
    } else if spells(name, "R5") {
        Some(5)
    } else if spells(name, "R6") {
        Some(6)
    } else if spells(name, "R7") {
        Some(7)
    } else if spells(name, "R8") {
        Some(8)
    } else if spells(name, "R9") {
        Some(9)
    } else if spells(name, "R10") {
        Some(10)
    } else if spells(name, "R11") {
        Some(11)
    } else if spells(name, "R12") {
        Some(12)
    } else if spells(name, "R13") {
        Some(13)
    } else if spells(name, "R14") {
        Some(14)
    } else if spells(name, "R15") {
        Some(15)
    } else if spells(name, "SCREEN") {
        Some(16384)
    } else if spells(name, "KBD") {
        Some(24576)
    } else {
        None
    }
}

/// The symbols that a program defines, in the order in which they were
/// defined, as a mathematical value.
pub struct Symbols {
    pub names: Seq<Seq<u8>>,
    pub addresses: Seq<u16>,
}

impl Symbols {
    /// No symbols.
    pub open spec fn empty() -> Symbols {
        Symbols { names: Seq::empty(), addresses: Seq::empty() }
    }

    /// The position of the first symbol named `name` at or after `from`.
    pub open spec fn position(self, name: Seq<u8>, from: int) -> Option<int>
        decreases self.names.len() - from,
    {
        if from < 0 || from >= self.names.len() {
            None
        } else if self.names[from] == name {
            Some(from)
        } else {
            self.position(name, from + 1)
        }
    }

    /// The address that the program gives to `name`.
    pub open spec fn lookup(self, name: Seq<u8>) -> Option<u16> {
        match self.position(name, 0) {
            Some(at) => Some(self.addresses[at]),
            None => None,
        }
    }

    /// The symbols with `name` defined as `address`, behind all others.
    pub open spec fn define(self, name: Seq<u8>, address: u16) -> Symbols {
        Symbols { names: self.names.push(name), addresses: self.addresses.push(address) }
    }

    /// The address that `name` stands for, predefined symbols first.
    pub open spec fn resolve(self, name: Seq<u8>) -> Option<u16> {
        if predefined_spec(name) is Some {
            predefined_spec(name)
        } else {
            self.lookup(name)
        }
    }
}

/// A symbol that is defined behind all others, and was not defined before,
/// has the address it was defined with; every other symbol keeps its own.
pub proof fn define_then_lookup(symbols: Symbols, name: Seq<u8>, address: u16, other: Seq<u8>)
    requires
        symbols.names.len() == symbols.addresses.len(),
        symbols.lookup(name).is_none(),
    ensures
        symbols.define(name, address).lookup(name) == Some(address),
        other != name ==> symbols.define(name, address).lookup(other) == symbols.lookup(other),
{
    define_then_position(symbols, name, address, name, 0);
    define_then_position(symbols, name, address, other, 0);
}

proof fn define_then_position(symbols: Symbols, name: Seq<u8>, address: u16, other: Seq<u8>, from: int)
    requires
        symbols.names.len() == symbols.addresses.len(),
        0 <= from <= symbols.names.len(),
        symbols.position(name, from).is_none(),
    ensures
        symbols.define(name, address).position(name, from) == Some(symbols.names.len() as int),
        other != name ==> symbols.define(name, address).position(other, from) == symbols.position(
            other,
            from,
        ),
        symbols.position(other, from) matches Some(at) ==> from <= at < symbols.names.len(),
    decreases symbols.names.len() - from,
{
    reveal_with_fuel(Symbols::position, 3);
    if from < symbols.names.len() {
        define_then_position(symbols, name, address, other, from + 1);
    }
}

/// The symbols that a program defines.
pub struct SymbolTable {
    names: Vec<Vec<u8>>,
    addresses: Vec<u16>,
}

impl View for SymbolTable {
    type V = Symbols;

    closed spec fn view(&self) -> Symbols {
        Symbols { names: self.names@.map_values(|name: Vec<u8>| name@), addresses: self.addresses@ }
    }
}

impl SymbolTable {
    /// Every name has its address.
    pub closed spec fn wf(&self) -> bool {
        self.names.len() == self.addresses.len()
    }

    /// A table without symbols.
    pub fn new() -> (table: SymbolTable)
        ensures
            table.wf(),
            table@ == Symbols::empty(),
    {
        let table = SymbolTable { names: Vec::new(), addresses: Vec::new() };
        assert(table@.names =~= Seq::empty());
        table
    }

    /// The address that the program gives to `name`.
    pub fn lookup(&self, name: &[u8]) -> (address: Option<u16>)
        requires
            self.wf(),
        ensures
            address == self@.lookup(name@),
    {
        let mut i: usize = 0;
        while i < self.names.len()
            invariant
                i <= self.names.len(),
                self.wf(),
                self@.position(name@, 0) == self@.position(name@, i as int),
            decreases self.names.len() - i,
        {
            if bytes_equal(self.names[i].as_slice(), name) {
                return Some(self.addresses[i]);
            }
            i += 1;
        }
        None
    }

    /// The address that `name` stands for, predefined symbols first.
    pub fn resolve(&self, name: &[u8]) -> (address: Option<u16>)
        requires
            self.wf(),
        ensures
            address == self@.resolve(name@),
    {
        match predefined(name) {
            Some(address) => Some(address),
            None => self.lookup(name),
        }
    }

    /// Defines `name` as `address`.
    pub fn define(&mut self, name: Vec<u8>, address: u16)
        requires
            old(self).wf(),
        ensures
            final(self).wf(),
            final(self)@ == old(self)@.define(name@, address),
    {
        self.names.push(name);
        self.addresses.push(address);
        assert(self@.names =~= old(self)@.names.push(name@));
    }
}

} // verus!
