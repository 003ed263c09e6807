//! The keyboard reader: ownership of the byte source key presses come from.
//!
//! Reading bytes is input-output that the surrounding program performs; the
//! classification of what was read lives in `keystroke`: a single byte
//! through `AsciiKey::new`, a run that began with the escape byte through
//! `EscapeSequence::new`.

use vstd::prelude::*;

verus! {

/// Wraps the source that key presses are read from.
pub struct KeyBoardReader<R> {
    input: R,
}

impl<R> KeyBoardReader<R> {
    pub fn new(reader: R) -> KeyBoardReader<R> {
        KeyBoardReader { input: reader }
    }

    /// Give the byte source back, for the program that performs the reads.
    pub fn into_inner(self) -> R {
        self.input
    }
}

} // verus!
