//! The line-feed component: a cursor-aware screen buffer for one line of
//! input being edited.
//!
//! The buffer is a grid of `rows` rows of at most `cols` characters.
//! Printable keys insert at the cursor, delete removes before it, and the
//! arrow keys move it; after every key press the buffer is normalized (a
//! row's overflow spills onto the next row) and rendered. Rendering appends
//! ANSI escape bytes and the rows' characters to an output queue that the
//! surrounding program writes to the terminal; writing is input-output and
//! happens outside this library.

use std::collections::VecDeque;

use vstd::prelude::*;

use crate::dimensions::Dimensions;
use crate::keystroke::{AsciiKey, EscapeSequence, InputType};

verus! {

/// Whether the component carries on after a key press, stops (the line is
/// finished), or failed.
#[derive(Debug, PartialEq, Eq, Structural, Clone, Copy)]
pub enum ComponentState {
    Continue,
    Error,
    Stop,
}

/// The editing state: the grid of rows and the cursor position.
pub struct LineFeedV {
    pub buffer: Seq<Seq<char>>,
    pub row: int,
    pub col: int,
}

/// Inserting a character at the cursor: the cursor advances, wrapping to
/// the start of the next row at the last column.
pub open spec fn insert_step(st: LineFeedV, rows: int, cols: int, c: char) -> LineFeedV {
    let buf = st.buffer.update(st.row, st.buffer[st.row].insert(st.col, c));
    let c1 = (st.col + 1) % cols;
    if c1 == 0 {
        LineFeedV { buffer: buf, row: (st.row + 1) % rows, col: 0 }
    } else {
        LineFeedV { buffer: buf, row: st.row, col: c1 }
    }
}

/// Deleting before the cursor: the cursor retreats one column and the
/// character there is removed; at the first column nothing happens.
pub open spec fn delete_step(st: LineFeedV) -> LineFeedV {
    if st.col > 0 {
        LineFeedV {
            buffer: st.buffer.update(st.row, st.buffer[st.row].remove(st.col - 1)),
            row: st.row,
            col: st.col - 1,
        }
    } else {
        st
    }
}

/// The cursor one column left, stopping at the first column.
pub open spec fn left_step(st: LineFeedV) -> LineFeedV {
    if st.col > 0 {
        LineFeedV { col: st.col - 1, ..st }
    } else {
        st
    }
}

/// The cursor one column right, only within the row's text, wrapping to
/// the next row at the last column.
pub open spec fn right_step(st: LineFeedV, rows: int, cols: int) -> LineFeedV {
    if st.col < st.buffer[st.row].len() {
        let c1 = (st.col + 1) % cols;
        if c1 == 0 {
            LineFeedV { row: (st.row + 1) % rows, col: 0, ..st }
        } else {
            LineFeedV { col: c1, ..st }
        }
    } else {
        st
    }
}

/// A plain key press's effect on the editing state.
pub open spec fn ascii_step(st: LineFeedV, rows: int, cols: int, key: AsciiKey) -> LineFeedV {
    match key {
        AsciiKey::Char(c) => insert_step(st, rows, cols, c),
        AsciiKey::Delete => delete_step(st),
        _ => st,
    }
}

/// An escape sequence's effect on the editing state.
pub open spec fn esc_step(st: LineFeedV, rows: int, cols: int, esc: EscapeSequence) -> LineFeedV {
    match esc {
        EscapeSequence::ArrowLeft => left_step(st),
        EscapeSequence::ArrowRight => right_step(st, rows, cols),
        EscapeSequence::Delete => delete_step(st),
        _ => st,
    }
}

/// One decoded input's effect on the editing state.
pub open spec fn key_step(st: LineFeedV, rows: int, cols: int, key: InputType) -> LineFeedV {
    match key {
        InputType::Ascii(k) => ascii_step(st, rows, cols, k),
        InputType::Ansi(e) => esc_step(st, rows, cols, e),
    }
}

/// What a key press answers: end-of-text stops the component, every other
/// input carries on.
pub open spec fn key_result(key: InputType) -> ComponentState {
    match key {
        InputType::Ascii(AsciiKey::EndOfText) => ComponentState::Stop,
        _ => ComponentState::Continue,
    }
}

/// Normalization from row `i` on: a row longer than `cols` keeps its first
/// `cols` characters and spills the rest, reversed by the front-insertion
/// that carries it over, onto the front of the next row. The last row is
/// never split.
pub open spec fn resize_from(buf: Seq<Seq<char>>, cols: int, i: int) -> Seq<Seq<char>>
    decreases buf.len() - i,
{
    if i < 0 || i + 1 >= buf.len() {
        buf
    } else {
        let r = buf[i];
        if r.len() > cols {
            let buf2 = buf.update(i, r.take(cols)).update(i + 1, r.skip(cols).reverse() + buf[i + 1]);
            resize_from(buf2, cols, i + 1)
        } else {
            resize_from(buf, cols, i + 1)
        }
    }
}

/// The byte a character is rendered as: its low byte.
pub open spec fn char_byte(c: char) -> u8 {
    ((c as u32) % 256) as u8
}

/// A row's characters as render bytes.
pub open spec fn row_bytes(r: Seq<char>) -> Seq<u8> {
    Seq::new(r.len(), |i: int| char_byte(r[i]))
}

/// The decimal digits of `n`, as bytes.
pub open spec fn dec_bytes(n: u8) -> Seq<u8>
    decreases n,
{
    if n < 10 {
        seq![(0x30 + n) as u8]
    } else {
        dec_bytes(n / 10).push((0x30 + n % 10) as u8)
    }
}

/// The escape bytes that move the cursor to one-based `row`, `column`.
pub open spec fn move_cursor_bytes(row: u8, column: u8) -> Seq<u8> {
    seq![0x1bu8, 0x5bu8] + dec_bytes(row) + seq![0x3bu8] + dec_bytes(column) + seq![0x48u8]
}

/// The escape bytes that erase the cursor's row.
pub open spec fn erase_row_bytes() -> Seq<u8> {
    seq![0x1bu8, 0x5bu8, 0x4bu8]
}

/// The escape bytes that hide the cursor.
pub open spec fn hide_cursor_bytes() -> Seq<u8> {
    seq![0x1bu8, 0x5bu8, 0x3fu8, 0x32u8, 0x35u8, 0x6cu8]
}

/// The escape bytes that show the cursor.
pub open spec fn show_cursor_bytes() -> Seq<u8> {
    seq![0x1bu8, 0x5bu8, 0x3fu8, 0x32u8, 0x35u8, 0x68u8]
}

/// The render bytes from row `i` on: each row up to the first empty one is
/// addressed, erased and written.
pub open spec fn render_from(buf: Seq<Seq<char>>, i: int) -> Seq<u8>
    decreases buf.len() - i,
{
    if i < 0 || i >= buf.len() || buf[i].len() == 0 {
        Seq::empty()
    } else {
        move_cursor_bytes((i + 1) as u8, 1) + erase_row_bytes() + row_bytes(buf[i]) + render_from(
            buf,
            i + 1,
        )
    }
}

/// Everything one refresh appends: the cursor hidden, the rows rendered,
/// the cursor restored to its position and shown.
pub open spec fn refresh_bytes(buf: Seq<Seq<char>>, row: int, col: int) -> Seq<u8> {
    hide_cursor_bytes() + render_from(buf, 0) + move_cursor_bytes(
        (row + 1) as u8,
        (col + 1) as u8,
    ) + show_cursor_bytes()
}

/// The rows flattened into one character run, in row order.
pub open spec fn flat(b: Seq<Seq<char>>) -> Seq<char>
    decreases b.len(),
{
    if b.len() == 0 {
        Seq::empty()
    } else {
        b[0] + flat(b.skip(1))
    }
}

/// One more row extends the flattened prefix by exactly that row.
proof fn lemma_flat_take(b: Seq<Seq<char>>, i: int)
    requires
        0 <= i < b.len(),
    ensures
        flat(b.take(i + 1)) == flat(b.take(i)) + b[i],
    decreases i,
{
    if i == 0 {
        assert(b.take(1).skip(1) =~= Seq::<Seq<char>>::empty());
        assert(b.take(0) =~= Seq::<Seq<char>>::empty());
        assert(b.take(1)[0] == b[0]);
        assert(b[0] + Seq::<char>::empty() =~= b[0]);
        assert(Seq::<char>::empty() + b[0] =~= b[0]);
    } else {
        lemma_flat_take(b.skip(1), i - 1);
        assert(b.take(i + 1).skip(1) =~= b.skip(1).take(i));
        assert(b.take(i).skip(1) =~= b.skip(1).take(i - 1));
        assert(b.take(i + 1)[0] == b[0]);
        assert(b.take(i)[0] == b[0]);
        assert(b.skip(1)[i - 1] == b[i]);
        assert(flat(b.take(i + 1)) == b[0] + flat(b.skip(1).take(i)));
        assert(flat(b.take(i)) == b[0] + flat(b.skip(1).take(i - 1)));
        assert(b[0] + (flat(b.skip(1).take(i - 1)) + b[i]) =~= (b[0] + flat(
            b.skip(1).take(i - 1),
        )) + b[i]);
    }
}

/// The line-feed component: the grid being edited, the cursor, the screen
/// dimensions, and the queue of render bytes not yet written out.
pub struct LineFeed {
    buffer: Vec<VecDeque<char>>,
    cursor_row: usize,
    cursor_col: usize,
    dimensions: Dimensions,
    out: Vec<u8>,
}

impl LineFeed {
    /// The grid.
    pub closed spec fn buf(&self) -> Seq<Seq<char>> {
        self.buffer@.map_values(|r: VecDeque<char>| r@)
    }

    /// The editing state: grid and cursor.
    pub closed spec fn st(&self) -> LineFeedV {
        LineFeedV { buffer: self.buf(), row: self.cursor_row as int, col: self.cursor_col as int }
    }

    pub closed spec fn rows(&self) -> int {
        self.dimensions.rows as int
    }

    pub closed spec fn cols(&self) -> int {
        self.dimensions.cols as int
    }

    /// The render bytes queued and not yet written.
    pub closed spec fn out_bytes(&self) -> Seq<u8> {
        self.out@
    }

    /// Well-formedness: the grid has exactly `rows` rows, the dimensions
    /// are positive and addressable by the one-byte ANSI position fields,
    /// and the cursor is inside the screen and never past its row's text.
    pub closed spec fn wf(&self) -> bool {
        &&& 0 < self.rows() <= 255
        &&& 0 < self.cols() <= 255
        &&& self.buf().len() == self.rows()
        &&& 0 <= self.st().row < self.rows()
        &&& 0 <= self.st().col < self.cols()
        &&& self.st().col <= self.buf()[self.st().row].len()
    }

    /// A fresh component: an empty grid of the given dimensions, the cursor
    /// at the top left, nothing queued.
    pub fn new(dimensions: Dimensions) -> (lf: LineFeed)
        requires
            0 < dimensions.rows <= 255,
            0 < dimensions.cols <= 255,
        ensures
            lf.wf(),
            lf.rows() == dimensions.rows,
            lf.cols() == dimensions.cols,
            lf.st().row == 0,
            lf.st().col == 0,
            lf.buf().len() == dimensions.rows,
            forall|i: int| 0 <= i < lf.buf().len() ==> lf.buf()[i].len() == 0,
            lf.out_bytes().len() == 0,
    {
        let mut buffer: Vec<VecDeque<char>> = Vec::new();
        let mut i: usize = 0;
        while i < dimensions.rows
            invariant
                i <= dimensions.rows,
                buffer@.len() == i,
                forall|j: int| 0 <= j < i ==> buffer@[j]@.len() == 0,
            decreases dimensions.rows - i,
        {
            buffer.push(VecDeque::new());
            i = i + 1;
        }
        LineFeed { buffer, cursor_row: 0, cursor_col: 0, dimensions, out: Vec::new() }
    }

    /// Feed one key press: apply it to the editing state, then normalize
    /// and render. Answers whether the component carries on or stops.
    pub fn handle_key_press(&mut self, key: InputType) -> (r: ComponentState)
        requires
            old(self).wf(),
        ensures
            final(self).wf(),
            r == key_result(key),
            final(self).rows() == old(self).rows(),
            final(self).cols() == old(self).cols(),
            final(self).st().buffer == resize_from(
                key_step(old(self).st(), old(self).rows(), old(self).cols(), key).buffer,
                old(self).cols(),
                0,
            ),
            final(self).st().row == key_step(
                old(self).st(),
                old(self).rows(),
                old(self).cols(),
                key,
            ).row,
            final(self).st().col == key_step(
                old(self).st(),
                old(self).rows(),
                old(self).cols(),
                key,
            ).col,
            final(self).out_bytes() == old(self).out_bytes() + refresh_bytes(
                final(self).st().buffer,
                final(self).st().row,
                final(self).st().col,
            ),
    {
        let state = match key {
            InputType::Ascii(ascii_key) => self.handle_ascii_key(ascii_key),
            InputType::Ansi(escape) => self.handle_escape_sequence(escape),
        };
        self.refresh();
        state
    }

    /// Apply an escape sequence to the editing state: the arrows move the
    /// cursor, delete removes before it, everything else does nothing.
    /// Always carries on.
    pub fn handle_escape_sequence(&mut self, esc: EscapeSequence) -> (r: ComponentState)
        requires
            old(self).wf(),
        ensures
            final(self).wf(),
            r == ComponentState::Continue,
            final(self).st() == esc_step(old(self).st(), old(self).rows(), old(self).cols(), esc),
            final(self).rows() == old(self).rows(),
            final(self).cols() == old(self).cols(),
            final(self).out_bytes() == old(self).out_bytes(),
    {
        match esc {
            EscapeSequence::ArrowLeft | EscapeSequence::ArrowRight => {
                self.move_cursor_row_col(esc);
                ComponentState::Continue
            },
            EscapeSequence::Delete => {
                self.delete_current_position();
                ComponentState::Continue
            },
            _ => {
                proof {
                    assert(final(self).st() == old(self).st());
                }
                ComponentState::Continue
            },
        }
    }

    /// The grid flattened into one character run, in row order.
    pub fn get_buffer(&self) -> (r: Vec<char>)
        ensures
            r@ == flat(self.buf()),
    {
        let mut collected: Vec<char> = Vec::new();
        let mut i: usize = 0;
        proof {
            assert(self.buf().take(0) =~= Seq::<Seq<char>>::empty());
        }
        while i < self.buffer.len()
            invariant
                i <= self.buffer@.len(),
                collected@ == flat(self.buf().take(i as int)),
            decreases self.buffer@.len() - i,
        {
            let mut j: usize = 0;
            while j < self.buffer[i].len()
                invariant
                    i < self.buffer@.len(),
                    j <= self.buffer@[i as int]@.len(),
                    collected@ == flat(self.buf().take(i as int)) + self.buf()[i as int].take(
                        j as int,
                    ),
                decreases self.buffer@[i as int]@.len() - j,
            {
                collected.push(self.buffer[i][j]);
                proof {
                    assert(self.buf()[i as int].take(j as int).push(self.buf()[i as int][j as int])
                        =~= self.buf()[i as int].take(j as int + 1));
                    assert((flat(self.buf().take(i as int)) + self.buf()[i as int].take(j as int))
                        .push(self.buf()[i as int][j as int]) =~= flat(self.buf().take(i as int))
                        + self.buf()[i as int].take(j as int + 1));
                }
                j = j + 1;
            }
            proof {
                lemma_flat_take(self.buf(), i as int);
                assert(self.buf()[i as int].take(self.buf()[i as int].len() as int) =~= self.buf()[
                    i as int
                ]);
            }
            i = i + 1;
        }
        proof {
            assert(self.buf().take(self.buf().len() as int) =~= self.buf());
        }
        collected
    }

    /// The grid flattened into one string, in row order.
    pub fn get_buffer_as_str(&self) -> (r: String)
        ensures
            r@ == flat(self.buf()),
    {
        let chars = self.get_buffer();
        let mut buffer_str = String::new();
        let mut i: usize = 0;
        while i < chars.len()
            invariant
                i <= chars@.len(),
                buffer_str@ == chars@.take(i as int),
            decreases chars@.len() - i,
        {
            buffer_str.push(chars[i]);
            proof {
                assert(chars@.take(i as int).push(chars@[i as int]) =~= chars@.take(i as int + 1));
            }
            i = i + 1;
        }
        proof {
            assert(chars@.take(chars@.len() as int) =~= chars@);
        }
        buffer_str
    }

    /// Take the queued render bytes, leaving the queue empty, so that the
    /// surrounding program can write them to the terminal.
    pub fn take_output(&mut self) -> (r: Vec<u8>)
        ensures
            r@ == old(self).out_bytes(),
            final(self).out_bytes().len() == 0,
            final(self).st() == old(self).st(),
            final(self).rows() == old(self).rows(),
            final(self).cols() == old(self).cols(),
            final(self).wf() == old(self).wf(),
    {
        let mut taken: Vec<u8> = Vec::new();
        core::mem::swap(&mut taken, &mut self.out);
        taken
    }

    /// Apply a plain key press to the editing state: a printable character
    /// inserts at the cursor, delete removes before it, end-of-text stops
    /// the component, everything else does nothing.
    fn handle_ascii_key(&mut self, key: AsciiKey) -> (r: ComponentState)
        requires
            old(self).wf(),
        ensures
            final(self).wf(),
            r == key_result(InputType::Ascii(key)),
            final(self).st() == ascii_step(old(self).st(), old(self).rows(), old(self).cols(), key),
            final(self).rows() == old(self).rows(),
            final(self).cols() == old(self).cols(),
            final(self).out_bytes() == old(self).out_bytes(),
    {
        match key {
            AsciiKey::Char(c) => {
                let r = self.cursor_row;
                let mut rowv = self.buffer.remove(r);
                rowv.insert(self.cursor_col, c);
                self.buffer.insert(r, rowv);
                proof {
                    assert(self.buf() =~= old(self).buf().update(
                        r as int,
                        old(self).buf()[r as int].insert(old(self).cursor_col as int, c),
                    ));
                }
                self.cursor_col = (self.cursor_col + 1) % self.dimensions.cols;
                if self.cursor_col == 0 {
                    self.cursor_row = (self.cursor_row + 1) % self.dimensions.rows;
                }
                proof {
                    let c0 = old(self).st().col;
                    let m = old(self).cols();
                    assert((c0 + 1) % m == c0 + 1 || (c0 + 1) % m == 0) by (nonlinear_arith)
                        requires
                            0 <= c0,
                            c0 + 1 <= m,
                            m > 0,
                    ;
                }
                ComponentState::Continue
            },
            AsciiKey::Delete => {
                self.delete_current_position();
                ComponentState::Continue
            },
            AsciiKey::EndOfText => {
                proof {
                    assert(final(self).st() == old(self).st());
                }
                ComponentState::Stop
            },
            _ => {
                proof {
                    assert(final(self).st() == old(self).st());
                }
                ComponentState::Continue
            },
        }
    }

    /// Move the cursor by one arrow key: left stops at the first column,
    /// right stays within the row's text and wraps at the last column.
    fn move_cursor_row_col(&mut self, key: EscapeSequence)
        requires
            old(self).wf(),
        ensures
            final(self).wf(),
            key matches EscapeSequence::ArrowLeft ==> final(self).st() == left_step(old(self).st()),
            key matches EscapeSequence::ArrowRight ==> final(self).st() == right_step(
                old(self).st(),
                old(self).rows(),
                old(self).cols(),
            ),
            !(key matches EscapeSequence::ArrowLeft || key matches EscapeSequence::ArrowRight)
                ==> final(self).st() == old(self).st(),
            final(self).rows() == old(self).rows(),
            final(self).cols() == old(self).cols(),
            final(self).out_bytes() == old(self).out_bytes(),
    {
        match key {
            EscapeSequence::ArrowLeft => {
                if self.cursor_col > 0 {
                    self.cursor_col = self.cursor_col - 1;
                }
            },
            EscapeSequence::ArrowRight => {
                let ghost c0 = old(self).st().col;
                if self.cursor_col < self.buffer[self.cursor_row].len() {
                    self.cursor_col = (self.cursor_col + 1) % self.dimensions.cols;
                    if self.cursor_col == 0 {
                        self.cursor_row = (self.cursor_row + 1) % self.dimensions.rows;
                    }
                    proof {
                        let m = old(self).cols();
                        assert((c0 + 1) % m == c0 + 1 || (c0 + 1) % m == 0) by (nonlinear_arith)
                            requires
                                0 <= c0,
                                c0 + 1 <= m,
                                m > 0,
                        ;
                    }
                }
            },
            _ => {},
        }
    }

    /// Remove the character before the cursor and retreat by one column; at
    /// the first column nothing happens.
    fn delete_current_position(&mut self)
        requires
            old(self).wf(),
        ensures
            final(self).wf(),
            final(self).st() == delete_step(old(self).st()),
            final(self).rows() == old(self).rows(),
            final(self).cols() == old(self).cols(),
            final(self).out_bytes() == old(self).out_bytes(),
    {
        if self.cursor_col > 0 {
            self.cursor_col = self.cursor_col - 1;
            let r = self.cursor_row;
            let mut rowv = self.buffer.remove(r);
            let _ = rowv.remove(self.cursor_col);
            self.buffer.insert(r, rowv);
            proof {
                assert(self.buf() =~= old(self).buf().update(
                    r as int,
                    old(self).buf()[r as int].remove(old(self).cursor_col - 1),
                ));
            }
        }
    }

    /// Normalize, then render the grid with the cursor hidden, and restore
    /// and show the cursor: one complete screen update, queued.
    fn refresh(&mut self)
        requires
            old(self).wf(),
        ensures
            final(self).wf(),
            final(self).st().buffer == resize_from(old(self).st().buffer, old(self).cols(), 0),
            final(self).st().row == old(self).st().row,
            final(self).st().col == old(self).st().col,
            final(self).rows() == old(self).rows(),
            final(self).cols() == old(self).cols(),
            final(self).out_bytes() == old(self).out_bytes() + refresh_bytes(
                final(self).st().buffer,
                final(self).st().row,
                final(self).st().col,
            ),
    {
        self.resize_buffer();
        self.hide_cursor();
        self.render();
        let row_pos = self.cursor_row + 1;
        let col_pos = self.cursor_col + 1;
        self.move_cursor(row_pos as u8, col_pos as u8);
        self.show_cursor();
        proof {
            assert(final(self).out_bytes() =~= old(self).out_bytes() + refresh_bytes(
                final(self).st().buffer,
                final(self).st().row,
                final(self).st().col,
            ));
        }
    }

    /// Spill each row's overflow beyond the screen width onto the front of
    /// the next row, top to bottom; the last row keeps any overflow.
    #[verifier::rlimit(50)]
    fn resize_buffer(&mut self)
        requires
            old(self).wf(),
        ensures
            final(self).wf(),
            final(self).st().buffer == resize_from(old(self).st().buffer, old(self).cols(), 0),
            final(self).st().row == old(self).st().row,
            final(self).st().col == old(self).st().col,
            final(self).rows() == old(self).rows(),
            final(self).cols() == old(self).cols(),
            final(self).out_bytes() == old(self).out_bytes(),
    {
        let rows = self.dimensions.rows;
        let cols = self.dimensions.cols;
        let ghost buf0 = self.buf();
        let mut row: usize = 0;
        while row + 1 < rows
            invariant
                old(self).wf(),
                rows == old(self).rows(),
                cols == old(self).cols(),
                row < rows,
                self.buf().len() == rows,
                self.cursor_row == old(self).cursor_row,
                self.cursor_col == old(self).cursor_col,
                self.cursor_col as int <= self.buf()[self.cursor_row as int].len(),
                self.dimensions == old(self).dimensions,
                self.out@ == old(self).out@,
                buf0 == old(self).buf(),
                resize_from(buf0, cols as int, 0) == resize_from(self.buf(), cols as int, row as int),
            decreases rows - row,
        {
            let row_len = self.buffer[row].len();
            if row_len > cols {
                let ghost bcur = self.buf();
                let mut kept = self.buffer.remove(row);
                let overflow = kept.split_off(cols);
                self.buffer.insert(row, kept);
                let mut next = self.buffer.remove(row + 1);
                let ghost next0 = next@;
                let mut j: usize = 0;
                while j < overflow.len()
                    invariant
                        j <= overflow@.len(),
                        next@ == overflow@.take(j as int).reverse() + next0,
                    decreases overflow@.len() - j,
                {
                    next.push_front(overflow[j]);
                    proof {
                        assert(overflow@.take(j as int + 1).reverse() =~= seq![
                            overflow@[j as int],
                        ] + overflow@.take(j as int).reverse());
                        assert(seq![overflow@[j as int]] + (overflow@.take(j as int).reverse()
                            + next0) =~= (seq![overflow@[j as int]] + overflow@.take(
                            j as int,
                        ).reverse()) + next0);
                    }
                    j = j + 1;
                }
                proof {
                    assert(overflow@.take(overflow@.len() as int) =~= overflow@);
                }
                self.buffer.insert(row + 1, next);
                proof {
                    assert(self.buf() =~= bcur.update(row as int, bcur[row as int].take(
                        cols as int,
                    )).update(row as int + 1, bcur[row as int].skip(cols as int).reverse() + bcur[
                        row as int + 1
                    ]));
                }
            }
            row = row + 1;
        }
    }

    /// Address, erase and write each row, top to bottom, stopping at the
    /// first empty row.
    fn render(&mut self)
        requires
            old(self).wf(),
        ensures
            final(self).wf(),
            final(self).st() == old(self).st(),
            final(self).rows() == old(self).rows(),
            final(self).cols() == old(self).cols(),
            final(self).out_bytes() == old(self).out_bytes() + render_from(old(self).buf(), 0),
    {
        let rows = self.dimensions.rows;
        let mut i: usize = 0;
        while i < rows
            invariant
                old(self).wf(),
                rows == old(self).rows(),
                i <= rows,
                self.st() == old(self).st(),
                self.rows() == old(self).rows(),
                self.cols() == old(self).cols(),
                self.out_bytes() + render_from(self.buf(), i as int) == old(self).out_bytes()
                    + render_from(old(self).buf(), 0),
            ensures
                self.st() == old(self).st(),
                self.rows() == old(self).rows(),
                self.cols() == old(self).cols(),
                self.out_bytes() == old(self).out_bytes() + render_from(old(self).buf(), 0),
            decreases rows - i,
        {
            if self.buffer[i].len() == 0 {
                proof {
                    assert(render_from(self.buf(), i as int) =~= Seq::<u8>::empty());
                    assert(self.out@ + Seq::<u8>::empty() =~= self.out@);
                }
                break;
            }
            let ghost out0 = self.out_bytes();
            let ghost bi = self.buf()[i as int];
            let pos = i + 1;
            self.move_cursor(pos as u8, 1);
            self.erase_current_row();
            let mut bytes: Vec<u8> = Vec::new();
            let mut j: usize = 0;
            while j < self.buffer[i].len()
                invariant
                    i < self.buffer@.len(),
                    bi == self.buf()[i as int],
                    j <= bi.len(),
                    bytes@ == row_bytes(bi).take(j as int),
                decreases bi.len() - j,
            {
                let c = self.buffer[i][j];
                bytes.push(char_to_byte(c));
                proof {
                    assert(row_bytes(bi).take(j as int).push(char_byte(bi[j as int])) =~= row_bytes(
                        bi,
                    ).take(j as int + 1));
                }
                j = j + 1;
            }
            proof {
                assert(row_bytes(bi).take(row_bytes(bi).len() as int) =~= row_bytes(bi));
            }
            self.write_bytes(bytes.as_slice());
            proof {
                assert(render_from(self.buf(), i as int) == move_cursor_bytes(
                    (i + 1) as u8,
                    1,
                ) + erase_row_bytes() + row_bytes(bi) + render_from(self.buf(), i as int + 1));
                assert(self.out_bytes() + render_from(self.buf(), i as int + 1) =~= out0
                    + render_from(self.buf(), i as int));
            }
            i = i + 1;
        }
        proof {
            if i == rows {
                assert(render_from(self.buf(), rows as int) =~= Seq::<u8>::empty());
                assert(self.out@ + Seq::<u8>::empty() =~= self.out@);
            }
        }
    }

    /// Queue the given bytes on the output.
    fn write_bytes(&mut self, bytes: &[u8])
        ensures
            final(self).out_bytes() == old(self).out_bytes() + bytes@,
            final(self).st() == old(self).st(),
            final(self).rows() == old(self).rows(),
            final(self).cols() == old(self).cols(),
            final(self).wf() == old(self).wf(),
    {
        let mut i: usize = 0;
        while i < bytes.len()
            invariant
                i <= bytes@.len(),
                self.out@ == old(self).out@ + bytes@.take(i as int),
                self.buffer@ == old(self).buffer@,
                self.cursor_row == old(self).cursor_row,
                self.cursor_col == old(self).cursor_col,
                self.dimensions == old(self).dimensions,
            decreases bytes@.len() - i,
        {
            self.out.push(bytes[i]);
            proof {
                assert((old(self).out@ + bytes@.take(i as int)).push(bytes@[i as int]) =~= old(
                    self,
                ).out@ + bytes@.take(i as int + 1));
            }
            i = i + 1;
        }
        proof {
            assert(bytes@.take(bytes@.len() as int) =~= bytes@);
        }
    }

    /// Queue the escape bytes that erase the cursor's row.
    fn erase_current_row(&mut self)
        ensures
            final(self).out_bytes() == old(self).out_bytes() + erase_row_bytes(),
            final(self).st() == old(self).st(),
            final(self).rows() == old(self).rows(),
            final(self).cols() == old(self).cols(),
            final(self).wf() == old(self).wf(),
    {
        self.out.push(0x1b);
        self.out.push(0x5b);
        self.out.push(0x4b);
        proof {
            assert(final(self).out_bytes() =~= old(self).out_bytes() + erase_row_bytes());
        }
    }

    /// Queue the escape bytes that move the cursor to one-based `row`,
    /// `column`.
    fn move_cursor(&mut self, row: u8, column: u8)
        ensures
            final(self).out_bytes() == old(self).out_bytes() + move_cursor_bytes(row, column),
            final(self).st() == old(self).st(),
            final(self).rows() == old(self).rows(),
            final(self).cols() == old(self).cols(),
            final(self).wf() == old(self).wf(),
    {
        self.out.push(0x1b);
        self.out.push(0x5b);
        push_dec(row, &mut self.out);
        self.out.push(0x3b);
        push_dec(column, &mut self.out);
        self.out.push(0x48);
        proof {
            assert(final(self).out_bytes() =~= old(self).out_bytes() + move_cursor_bytes(
                row,
                column,
            ));
        }
    }

    /// Queue the escape bytes that hide the cursor.
    fn hide_cursor(&mut self)
        ensures
            final(self).out_bytes() == old(self).out_bytes() + hide_cursor_bytes(),
            final(self).st() == old(self).st(),
            final(self).rows() == old(self).rows(),
            final(self).cols() == old(self).cols(),
            final(self).wf() == old(self).wf(),
    {
        self.out.push(0x1b);
        self.out.push(0x5b);
        self.out.push(0x3f);
        self.out.push(0x32);
        self.out.push(0x35);
        self.out.push(0x6c);
        proof {
            assert(final(self).out_bytes() =~= old(self).out_bytes() + hide_cursor_bytes());
        }
    }

    /// Queue the escape bytes that show the cursor.
    fn show_cursor(&mut self)
        ensures
            final(self).out_bytes() == old(self).out_bytes() + show_cursor_bytes(),
            final(self).st() == old(self).st(),
            final(self).rows() == old(self).rows(),
            final(self).cols() == old(self).cols(),
            final(self).wf() == old(self).wf(),
    {
        self.out.push(0x1b);
        self.out.push(0x5b);
        self.out.push(0x3f);
        self.out.push(0x32);
        self.out.push(0x35);
        self.out.push(0x68);
        proof {
            assert(final(self).out_bytes() =~= old(self).out_bytes() + show_cursor_bytes());
        }
    }
}

/// The render byte of one character.
fn char_to_byte(c: char) -> (r: u8)
    ensures
        r == char_byte(c),
{
    ((c as u32) % 256) as u8
}

/// Append the decimal digits of `n` to `out`.
fn push_dec(n: u8, out: &mut Vec<u8>)
    ensures
        final(out)@ == old(out)@ + dec_bytes(n),
    decreases n,
{
    if n >= 10 {
        proof {
            assert(n / 10 < n) by (nonlinear_arith)
                requires
                    n >= 10,
            ;
        }
        push_dec(n / 10, out);
        out.push(0x30 + n % 10);
        proof {
            assert(final(out)@ =~= old(out)@ + dec_bytes(n));
        }
    } else {
        out.push(0x30 + n);
        proof {
            assert(final(out)@ =~= old(out)@ + dec_bytes(n));
        }
    }
}

} // verus!
