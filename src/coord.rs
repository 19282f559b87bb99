use vstd::prelude::*;

verus! {

/// Number of rows, and of cells in a row.
pub const BOARD_SIZE: u8 = 8;

/// A row or column index of the board, always below `BOARD_SIZE`.
#[derive(Debug, Clone, Copy, PartialEq, Eq, Structural)]
pub struct Coord(pub(crate) u8);

/// A coordinate that does not fall on the board.
#[derive(Debug, Clone, Copy, PartialEq, Eq, Structural)]
pub struct OutOfBounds {
    pub value: u8,
}

impl View for Coord {
    type V = int;

    open(crate) spec fn view(&self) -> int {
        self.0 as int
    }
}

/// The coordinate with index `v`, for `0 <= v < 8`.
pub open(crate) spec fn coord_at(v: int) -> Coord {
    Coord(v as u8)
}

impl Coord {
    #[verifier::type_invariant]
    pub(crate) open spec fn on_board(self) -> bool {
        self.0 < BOARD_SIZE
    }

    /// The coordinate with index `v`, or `OutOfBounds` when `v` is 8 or more.
    pub fn new(v: u8) -> (r: Result<Coord, OutOfBounds>)
        ensures
            v < 8 ==> r == Ok::<Coord, OutOfBounds>(coord_at(v as int)),
            v >= 8 ==> r == Err::<Coord, OutOfBounds>(OutOfBounds { value: v }),
    {
        if v < BOARD_SIZE {
            Ok(Coord(v))
        } else {
            Err(OutOfBounds { value: v })
        }
    }

    /// The coordinate with index `v`; the caller guarantees that it is on the board.
    pub fn new_unchecked(v: u8) -> (r: Coord)
        requires
            v < 8,
        ensures
            r == coord_at(v as int),
    {
        Coord(v)
    }

    /// The index as a byte.
    pub fn as_u8(self) -> (r: u8)
        ensures
            r == self@,
            r < 8,
    {
        proof {
            use_type_invariant(self);
        }
        self.0
    }

    /// The index as a `usize`.
    pub fn as_usize(self) -> (r: usize)
        ensures
            r == self@,
            r < 8,
    {
        proof {
            use_type_invariant(self);
        }
        self.0 as usize
    }

    /// The next coordinate, or `None` after the last one.
    pub fn forward(self) -> (r: Option<Coord>)
        ensures
            self@ < 7 ==> r == Some(coord_at(self@ + 1)),
            self@ >= 7 ==> r.is_none(),
    {
        proof {
            use_type_invariant(self);
        }
        if self.0 < 7 {
            Some(Coord(self.0 + 1))
        } else {
            None
        }
    }

    /// All eight coordinates, in increasing order.
    pub fn in_order() -> (r: Vec<Coord>)
        ensures
            r@.len() == 8,
            forall|i: int| 0 <= i < 8 ==> #[trigger] r@[i] == coord_at(i),
    {
        let mut r: Vec<Coord> = Vec::new();
        let mut v: u8 = 0;
        while v < BOARD_SIZE
            invariant
                v <= 8,
                r@.len() == v,
                forall|i: int| 0 <= i < v ==> #[trigger] r@[i] == coord_at(i),
            decreases 8 - v,
        {
            r.push(Coord(v));
            v = v + 1;
        }
        r
    }
}

/// A cell of the board: column `x` and row `y`.
#[derive(Debug, Clone, Copy, PartialEq, Eq, Structural)]
pub struct Position {
    pub x: Coord,
    pub y: Coord,
}

/// The position with column `x` and row `y`, for indices on the board.
pub open spec fn pos_at(x: int, y: int) -> Position {
    Position { x: coord_at(x), y: coord_at(y) }
}

impl Position {
    pub fn new(x: Coord, y: Coord) -> (r: Position)
        ensures
            r == (Position { x, y }),
    {
        Position { x, y }
    }

    /// The position at column `x` and row `y`, or `OutOfBounds` with the first
    /// index that is 8 or more.
    pub fn from_indices(x: u8, y: u8) -> (r: Result<Position, OutOfBounds>)
        ensures
            x < 8 && y < 8 ==> r == Ok::<Position, OutOfBounds>(pos_at(x as int, y as int)),
            x >= 8 ==> r == Err::<Position, OutOfBounds>(OutOfBounds { value: x }),
            x < 8 && y >= 8 ==> r == Err::<Position, OutOfBounds>(OutOfBounds { value: y }),
    {
        match Coord::new(x) {
            Err(e) => Err(e),
            Ok(cx) => match Coord::new(y) {
                Err(e) => Err(e),
                Ok(cy) => Ok(Position { x: cx, y: cy }),
            },
        }
    }
}

} // verus!
