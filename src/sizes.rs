use vstd::layout::size_of;
use vstd::prelude::*;

use crate::board::{Board, Row};
use crate::cell::Cell;

verus! {

/// The memory sizes, in bytes, of a cell, a row and a board.
#[derive(Debug, Clone, Copy)]
pub struct Sizes {
    pub cell: usize,
    pub row: usize,
    pub board: usize,
}

impl Sizes {
    pub fn new() -> (r: Sizes)
        ensures
            r.cell as nat == size_of::<Cell>(),
            r.row as nat == size_of::<Row>(),
            r.board as nat == size_of::<Board>(),
    {
        Sizes {
            cell: core::mem::size_of::<Cell>(),
            row: core::mem::size_of::<Row>(),
            board: core::mem::size_of::<Board>(),
        }
    }
}

} // verus!
