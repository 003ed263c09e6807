//! Dimensions of the screen.

use vstd::prelude::*;

verus! {

/// The number of rows and columns available in the terminal window.
///
/// Querying the live terminal is an operating-system matter that the
/// surrounding program performs; it constructs the value here from the
/// numbers it obtained, and the rendering code adapts its output to them.
#[derive(Debug, Clone, Copy, PartialEq, Eq, Structural)]
pub struct Dimensions {
    /// The number of rows in the screen.
    pub rows: usize,
    /// The number of columns in the screen.
    pub cols: usize,
}

impl Dimensions {
    /// Dimensions of the given size.
    pub fn new(rows: usize, cols: usize) -> (d: Dimensions)
        ensures
            d.rows == rows,
            d.cols == cols,
    {
        Dimensions { rows, cols }
    }

    /// Zero rows and columns: a placeholder before the real size is known.
    pub fn empty() -> (d: Dimensions)
        ensures
            d.rows == 0,
            d.cols == 0,
    {
        Dimensions { rows: 0, cols: 0 }
    }

    /// Replace the size with a newly queried one.
    pub fn resize(&mut self, rows: usize, cols: usize)
        ensures
            final(self).rows == rows,
            final(self).cols == cols,
    {
        self.rows = rows;
        self.cols = cols;
    }
}

} // verus!
