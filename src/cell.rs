use vstd::prelude::*;

use crate::coord::Coord;
use crate::player::{Piece, Player};

verus! {

/// The content of one square. `White` and `Black` are the empty light and
/// dark squares; the other variants hold a piece.
#[derive(Debug, Clone, Copy, PartialEq, Eq, Structural)]
pub enum Cell {
    White,
    Black,
    WhitePiece,
    BlackPiece,
    WhiteQueen,
    BlackQueen,
}

/// What `remove` leaves behind: an empty dark square.
pub const EMPTY: Cell = Cell::Black;

impl Cell {
    pub open spec fn piece_of(self) -> Option<Piece> {
        match self {
            Cell::WhitePiece => Some(Piece::White),
            Cell::BlackPiece => Some(Piece::Black),
            Cell::WhiteQueen => Some(Piece::WhiteQueen),
            Cell::BlackQueen => Some(Piece::BlackQueen),
            _ => None,
        }
    }

    pub open spec fn occupied(self) -> bool {
        self.piece_of().is_some()
    }

    pub open spec fn owner(self) -> Option<Player> {
        match self.piece_of() {
            Some(p) => Some(p.owner()),
            None => None,
        }
    }

    /// Holds a piece of the side opposing `player`.
    pub open spec fn hostile_to(self, player: Player) -> bool {
        match self.owner() {
            Some(o) => o != player,
            None => false,
        }
    }

    /// The three-bit code of the cell: bit 2 marks a piece, bit 1 a queen,
    /// bit 0 the colour (0 white, 1 black).
    pub open spec fn code(self) -> u8 {
        match self {
            Cell::White => 0b000,
            Cell::Black => 0b001,
            Cell::WhitePiece => 0b100,
            Cell::BlackPiece => 0b101,
            Cell::WhiteQueen => 0b110,
            Cell::BlackQueen => 0b111,
        }
    }

    /// Material value from White's side: a man is worth 1, a queen 5, with
    /// the sign of its side; an empty square is worth nothing.
    pub open spec fn worth(self) -> int {
        match self {
            Cell::WhitePiece => 1,
            Cell::WhiteQueen => 5,
            Cell::BlackPiece => -1,
            Cell::BlackQueen => -5,
            _ => 0,
        }
    }

    /// The cell that holds `piece`.
    pub open spec fn holding(piece: Piece) -> Cell {
        match piece {
            Piece::White => Cell::WhitePiece,
            Piece::Black => Cell::BlackPiece,
            Piece::WhiteQueen => Cell::WhiteQueen,
            Piece::BlackQueen => Cell::BlackQueen,
        }
    }

    pub fn is_piece(self) -> (r: bool)
        ensures
            r == self.occupied(),
    {
        match self {
            Cell::White | Cell::Black => false,
            _ => true,
        }
    }

    /// The side of the piece on this square, if any.
    pub fn player_affiliation(self) -> (r: Option<Player>)
        ensures
            r == self.owner(),
    {
        match self {
            Cell::WhitePiece | Cell::WhiteQueen => Some(Player::White),
            Cell::BlackPiece | Cell::BlackQueen => Some(Player::Black),
            _ => None,
        }
    }

    /// The colour bit read as a side: for a piece its side, for an empty
    /// square the colour of the square.
    pub fn color(self) -> (r: Player)
        ensures
            self.occupied() ==> Some(r) == self.owner(),
            self == Cell::White ==> r == Player::White,
            self == Cell::Black ==> r == Player::Black,
    {
        match self {
            Cell::White | Cell::WhitePiece | Cell::WhiteQueen => Player::White,
            _ => Player::Black,
        }
    }

    /// The piece on this square, if any.
    pub fn into_piece(self) -> (r: Option<Piece>)
        ensures
            r == self.piece_of(),
    {
        match self {
            Cell::WhitePiece => Some(Piece::White),
            Cell::BlackPiece => Some(Piece::Black),
            Cell::WhiteQueen => Some(Piece::WhiteQueen),
            Cell::BlackQueen => Some(Piece::BlackQueen),
            _ => None,
        }
    }

    /// The square holding `piece`.
    pub fn from_piece(piece: Piece) -> (r: Cell)
        ensures
            r == Cell::holding(piece),
            r.piece_of() == Some(piece),
    {
        match piece {
            Piece::White => Cell::WhitePiece,
            Piece::Black => Cell::BlackPiece,
            Piece::WhiteQueen => Cell::WhiteQueen,
            Piece::BlackQueen => Cell::BlackQueen,
        }
    }

    /// True when the square holds a piece of the side opposing `player`.
    pub fn is_enemy_to(self, player: Player) -> (r: bool)
        ensures
            r == self.hostile_to(player),
    {
        match self.player_affiliation() {
            None => false,
            Some(other) => other.is_enemy_to(player),
        }
    }

    /// The three-bit code of the cell.
    pub fn bits(self) -> (r: u8)
        ensures
            r == self.code(),
    {
        match self {
            Cell::White => 0b000,
            Cell::Black => 0b001,
            Cell::WhitePiece => 0b100,
            Cell::BlackPiece => 0b101,
            Cell::WhiteQueen => 0b110,
            Cell::BlackQueen => 0b111,
        }
    }

    /// Decodes a three-bit code; `None` for the two codes that name no cell
    /// and for anything above seven.
    pub fn from_bits(bits: u8) -> (r: Option<Cell>)
        ensures
            forall|c: Cell| r == Some(c) <==> c.code() == bits,
    {
        let r = match bits {
            0b000 => Some(Cell::White),
            0b001 => Some(Cell::Black),
            0b100 => Some(Cell::WhitePiece),
            0b101 => Some(Cell::BlackPiece),
            0b110 => Some(Cell::WhiteQueen),
            0b111 => Some(Cell::BlackQueen),
            _ => None,
        };
        proof {
            assert forall|c: Cell| r == Some(c) <==> c.code() == bits by {
                match c {
                    Cell::White => {},
                    Cell::Black => {},
                    Cell::WhitePiece => {},
                    Cell::BlackPiece => {},
                    Cell::WhiteQueen => {},
                    Cell::BlackQueen => {},
                }
            }
        }
        r
    }

    /// Bit 2 of the code: 1 for a piece.
    pub fn piece_bit(self) -> (r: u8)
        ensures
            r == (if self.occupied() { 1u8 } else { 0u8 }),
    {
        if self.is_piece() {
            1
        } else {
            0
        }
    }

    /// Bit 1 of the code: 1 for a queen.
    pub fn queen_bit(self) -> (r: u8)
        ensures
            r == (if self == Cell::WhiteQueen || self == Cell::BlackQueen { 1u8 } else { 0u8 }),
    {
        match self {
            Cell::WhiteQueen | Cell::BlackQueen => 1,
            _ => 0,
        }
    }

    /// Bit 0 of the code: 0 for white, 1 for black.
    pub fn color_bit(self) -> (r: u8)
        ensures
            r == self.code() % 2,
    {
        match self.color() {
            Player::White => 0,
            Player::Black => 1,
        }
    }

    /// The material value of the square, see `worth`.
    pub fn value(self) -> (r: i32)
        ensures
            r == self.worth(),
    {
        match self {
            Cell::WhitePiece => 1,
            Cell::WhiteQueen => 5,
            Cell::BlackPiece => -1,
            Cell::BlackQueen => -5,
            _ => 0,
        }
    }
}

impl Default for Cell {
    /// An empty dark square.
    fn default() -> (r: Cell)
        ensures
            r == EMPTY,
    {
        Cell::Black
    }
}

/// The far row of each side: a White man on row 0, or a Black man on row 7,
/// becomes a queen of its side; every other cell is kept.
pub open spec fn promoted(y: int, cell: Cell) -> Cell {
    if y == 0 && cell == Cell::WhitePiece {
        Cell::WhiteQueen
    } else if y == 7 && cell == Cell::BlackPiece {
        Cell::BlackQueen
    } else {
        cell
    }
}

/// What `cell` becomes when it arrives on row `y`.
pub fn promote(y: Coord, cell: Cell) -> (r: Cell)
    ensures
        r == promoted(y@, cell),
{
    let y: u8 = y.as_u8();
    match cell {
        Cell::BlackPiece if y == 7 => Cell::BlackQueen,
        Cell::WhitePiece if y == 0 => Cell::WhiteQueen,
        _ => cell,
    }
}

} // verus!
