//! The data memory: 32768 words, with the screen and the keyboard mapped
//! into it.
//!
//! Cells `SCREEN .. KEYBOARD` are the bitmap of the screen, 32 words to a
//! row of 512 pixels; cell `KEYBOARD` holds the code of the key that is
//! pressed, or zero. The memory itself treats all of them as words. A
//! program cannot write the keyboard cell: only [`RAM::set_keyboard`] does.

use vstd::prelude::*;
use super::instruction::Word;

verus! {

/// Number of cells of the data memory: the 15-bit address space.
pub const RAM_SIZE: usize = 32768;

/// Address of the first word of the screen bitmap.
pub const SCREEN: Word = 16384;

/// Number of words that make up one row of the screen.
pub const SCREEN_ROW_LENGTH: Word = 32;

/// Number of rows of the screen.
pub const SCREEN_ROWS: Word = 256;

/// Address of the keyboard word.
pub const KEYBOARD: Word = 24576;

/// What a program's write of `value` to cell `address` makes of the memory
/// `cells`: the keyboard cell refuses it, every other cell takes it.
pub open spec fn store_spec(cells: Seq<Word>, address: Word, value: Word) -> Seq<Word> {
    if address == KEYBOARD {
        cells
    } else {
        cells.update(address as int, value)
    }
}

/// A word that a program writes is there to be read at once, in the screen
/// as anywhere else; only the keyboard cell keeps what it holds. No other
/// cell changes.
pub proof fn write_then_read(cells: Seq<Word>, address: Word, value: Word, other: Word)
    requires
        cells.len() == RAM_SIZE,
        0 <= address,
        0 <= other,
    ensures
        store_spec(cells, address, value).len() == RAM_SIZE,
        address != KEYBOARD ==> store_spec(cells, address, value)[address as int] == value,
        address == KEYBOARD ==> store_spec(cells, address, value) == cells,
        other != address ==> store_spec(cells, address, value)[other as int] == cells[other as int],
{
}

/// A memory's worth of zeros.
fn zeros() -> (cells: [Word; 32768])
    ensures
        forall|i: int| 0 <= i < 32768 ==> cells@[i] == 0,
{
    let mut cells = [0i16; 32768];
    let mut i: usize = 0;
    while i < 32768
        invariant
            i <= 32768,
            forall|k: int| 0 <= k < i ==> cells@[k] == 0,
        decreases 32768 - i,
    {
        cells[i] = 0;
        i += 1;
    }
    cells
}

/// The data memory.
pub struct RAM {
    pub contents: [Word; 32768],
}

impl View for RAM {
    type V = Seq<Word>;

    open spec fn view(&self) -> Seq<Word> {
        self.contents@
    }
}

impl RAM {
    /// A memory of zeros.
    pub fn new() -> (ram: RAM)
        ensures
            ram@ == Seq::new(32768, |i: int| 0i16),
    {
        let ram = RAM { contents: zeros() };
        assert(ram@ =~= Seq::new(32768, |i: int| 0i16));
        ram
    }

    /// The word in cell `address`.
    pub fn get(&self, address: Word) -> (value: Word)
        requires
            0 <= address,
        ensures
            value == self@[address as int],
    {
        self.contents[address as usize]
    }

    /// A program's write of `value` to cell `address`. The keyboard cell
    /// keeps its word.
    pub fn set(&mut self, address: Word, value: Word)
        requires
            0 <= address,
        ensures
            final(self)@ == store_spec(old(self)@, address, value),
    {
        if address != KEYBOARD {
            self.contents[address as usize] = value;
        }
    }

    /// The code of the key that is pressed, or zero.
    pub fn keyboard(&self) -> (code: Word)
        ensures
            code == self@[KEYBOARD as int],
    {
        self.contents[KEYBOARD as usize]
    }

    /// Records that the key with code `code` is pressed (zero: none is).
    /// Nothing else in the memory changes.
    pub fn set_keyboard(&mut self, code: Word)
        ensures
            final(self)@ == old(self)@.update(KEYBOARD as int, code),
    {
        self.contents[KEYBOARD as usize] = code;
    }

    /// The word of the screen bitmap at `column` (in words) of `row`.
    pub fn screen_word(&self, row: Word, column: Word) -> (value: Word)
        requires
            0 <= row < SCREEN_ROWS,
            0 <= column < SCREEN_ROW_LENGTH,
        ensures
            value == self@[SCREEN + row * SCREEN_ROW_LENGTH + column],
    {
        self.contents[(SCREEN + row * SCREEN_ROW_LENGTH + column) as usize]
    }

    /// Sets every cell to zero, the keyboard cell included.
    pub fn clear(&mut self)
        ensures
            final(self)@ == Seq::new(32768, |i: int| 0i16),
    {
        self.contents = zeros();
        assert(self@ =~= Seq::new(32768, |i: int| 0i16));
    }
}

} // verus!
