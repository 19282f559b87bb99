use vstd::prelude::*;

use crate::cell::{promote, promoted, Cell, EMPTY};
use crate::coord::{Coord, Position};

verus! {

/// The board as a mathematical value: eight rows of eight cells, indexed
/// first by row (`y`), then by column (`x`).
pub type Grid = Seq<Seq<Cell>>;

/// Eight rows of eight cells.
pub open spec fn well_shaped(g: Grid) -> bool {
    &&& g.len() == 8
    &&& forall|y: int| 0 <= y < 8 ==> (#[trigger] g[y]).len() == 8
}

pub open spec fn cell_of(g: Grid, p: Position) -> Cell {
    g[p.y@][p.x@]
}

/// `g` with the cell at `p` replaced by `c`.
pub open spec fn with_cell(g: Grid, p: Position, c: Cell) -> Grid {
    g.update(p.y@, g[p.y@].update(p.x@, c))
}

/// `g` after the content of `from` has been carried to `to`, promoted on
/// arrival, and `from` has been emptied.
pub open spec fn moved(g: Grid, from: Position, to: Position) -> Grid {
    with_cell(with_cell(g, to, promoted(to.y@, cell_of(g, from))), from, EMPTY)
}

/// The starting position: light squares (where `x + y` is even) empty, Black
/// men on the dark squares of rows 0 to 2, White men on those of rows 5 to 7.
pub open spec fn initial_cell(x: int, y: int) -> Cell {
    if (x + y) % 2 == 0 {
        Cell::White
    } else if y < 3 {
        Cell::BlackPiece
    } else if y > 4 {
        Cell::WhitePiece
    } else {
        Cell::Black
    }
}

pub open spec fn initial_grid() -> Grid {
    Seq::new(8, |y: int| Seq::new(8, |x: int| initial_cell(x, y)))
}

/// One row of the board.
#[derive(Debug, Clone, Copy, PartialEq, Eq)]
pub struct Row(pub [Cell; 8]);

impl View for Row {
    type V = Seq<Cell>;

    open spec fn view(&self) -> Seq<Cell> {
        self.0@
    }
}

impl Row {
    /// The cell in column `idx`.
    pub fn cell_at(&self, idx: Coord) -> (r: Cell)
        ensures
            r == self@[idx@],
    {
        let i = idx.as_usize();
        self.0[i]
    }

    /// Puts `cell` in column `idx`.
    pub fn replace(&mut self, idx: Coord, cell: Cell)
        ensures
            final(self)@ == old(self)@.update(idx@, cell),
    {
        let i = idx.as_usize();
        self.0[i] = cell;
    }

    /// Empties column `idx`.
    pub fn remove(&mut self, idx: Coord)
        ensures
            final(self)@ == old(self)@.update(idx@, EMPTY),
    {
        self.replace(idx, EMPTY)
    }
}

/// The eight rows of the board, row 0 first. Copying a board copies every
/// cell, so boards derived from one another never share storage.
#[derive(Debug, Clone, Copy, PartialEq, Eq)]
pub struct Board(pub [Row; 8]);

impl View for Board {
    type V = Grid;

    open spec fn view(&self) -> Grid {
        self.0@.map_values(|r: Row| r@)
    }
}

impl Board {
    pub proof fn lemma_well_shaped(&self)
        ensures
            well_shaped(self@),
    {
        assert forall|y: int| 0 <= y < 8 implies (#[trigger] self@[y]).len() == 8 by {
            assert(self@[y] == self.0@[y]@);
        }
    }

    /// The cell at `pos`.
    pub fn cell_at(&self, pos: Position) -> (r: Cell)
        ensures
            r == cell_of(self@, pos),
    {
        let y = pos.y.as_usize();
        self.0[y].cell_at(pos.x)
    }

    /// A shared reference to the cell at `pos`.
    pub fn cell_ref(&self, pos: Position) -> (r: &Cell)
        ensures
            *r == cell_of(self@, pos),
    {
        let y = pos.y.as_usize();
        let x = pos.x.as_usize();
        &self.0[y].0[x]
    }

    /// A mutable reference to the cell at `pos`; what is written through it
    /// lands at `pos` and nowhere else.
    pub fn cell_mut(&mut self, pos: Position) -> (r: &mut Cell)
        ensures
            *r == cell_of(old(self)@, pos),
            final(self)@ == with_cell(old(self)@, pos, *final(r)),
    {
        let y = pos.y.as_usize();
        let x = pos.x.as_usize();
        &mut self.0[y].0[x]
    }

    /// Puts `cell` at `pos`.
    pub fn replace(&mut self, pos: Position, cell: Cell)
        ensures
            final(self)@ == with_cell(old(self)@, pos, cell),
    {
        let y = pos.y.as_usize();
        let mut row = self.0[y];
        row.replace(pos.x, cell);
        self.0[y] = row;
        proof {
            assert(final(self)@ =~= with_cell(old(self)@, pos, cell));
        }
    }

    /// Empties the cell at `pos`.
    pub fn remove(&mut self, pos: Position)
        ensures
            final(self)@ == with_cell(old(self)@, pos, EMPTY),
    {
        self.replace(pos, EMPTY)
    }

    /// Carries the content of `from` to `to`, promoting a man that reaches
    /// its far row, and empties `from`. Captured pieces are not touched.
    pub fn move_cell(&mut self, from: Position, to: Position)
        ensures
            final(self)@ == moved(old(self)@, from, to),
    {
        let c = promote(to.y, self.cell_at(from));
        self.replace(to, c);
        self.remove(from);
    }

    /// True when a piece stands at `pos`.
    pub fn is_occupied(&self, pos: Position) -> (r: bool)
        ensures
            r == cell_of(self@, pos).occupied(),
    {
        self.cell_at(pos).is_piece()
    }
}

/// The standard starting position: twelve men a side on the dark squares,
/// Black on rows 0 to 2, White on rows 5 to 7.
pub fn initial_board() -> (r: Board)
    ensures
        r@ == initial_grid(),
{
    let mut rows: [Row; 8] = [Row([Cell::White; 8]); 8];
    let mut y: usize = 0;
    while y < 8
        invariant
            y <= 8,
            forall|j: int| 0 <= j < y ==> (#[trigger] rows@[j])@ == initial_grid()[j],
        decreases 8 - y,
    {
        let mut cells: [Cell; 8] = [Cell::White; 8];
        let mut x: usize = 0;
        while x < 8
            invariant
                y < 8,
                x <= 8,
                cells@.len() == 8,
                forall|i: int| 0 <= i < x ==> #[trigger] cells@[i] == initial_cell(i, y as int),
            decreases 8 - x,
        {
            let c = if (x + y) % 2 == 0 {
                Cell::White
            } else if y < 3 {
                Cell::BlackPiece
            } else if y > 4 {
                Cell::WhitePiece
            } else {
                Cell::Black
            };
            cells[x] = c;
            x = x + 1;
        }
        assert(cells@ =~= initial_grid()[y as int]);
        rows[y] = Row(cells);
        y = y + 1;
    }
    let r = Board(rows);
    assert(r@ =~= initial_grid());
    r
}

impl Default for Board {
    /// The starting position.
    fn default() -> (r: Board)
        ensures
            r@ == initial_grid(),
    {
        initial_board()
    }
}

} // verus!
