use vstd::prelude::*;

verus! {

/// What a cell of the grid shows: a letter of one of the three time words,
/// or a decoy letter.
#[derive(Clone, Copy, Debug, PartialEq, Eq, Structural)]
pub enum TimeWords {
    Hour,
    Minute,
    AMPM,
    Others,
}

/// One cell of the grid: its character and what it belongs to.
#[derive(Clone, Copy, Debug, PartialEq, Eq, Structural)]
pub struct Cell {
    pub ch: char,
    pub kind: TimeWords,
}

/// Number of letters that decoy cells are drawn from.
pub const ALPHABET_LEN: usize = 26;

/// The capital letter at position `i` of the alphabet.
pub open spec fn letter(i: int) -> char {
    (65 + i) as char
}

/// The `i`-th capital letter, `'A'` for 0 up to `'Z'` for 25.
pub fn letter_at(i: u8) -> (c: char)
    requires
        i < 26,
    ensures
        c == letter(i as int),
        'A' <= c <= 'Z',
{
    (65u8 + i) as char
}

} // verus!
