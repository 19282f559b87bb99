use vstd::prelude::*;

verus! {

/// One of the two sides. White moves towards row 0 and is the maximizing side
/// of the evaluation; Black moves towards row 7 and is the minimizing side.
#[derive(Debug, Clone, Copy, PartialEq, Eq, Structural)]
pub enum Player {
    White,
    Black,
}

impl Player {
    pub open spec fn opponent(self) -> Player {
        match self {
            Player::White => Player::Black,
            Player::Black => Player::White,
        }
    }

    /// The side that moves after this one.
    pub fn next(self) -> (r: Player)
        ensures
            r == self.opponent(),
    {
        match self {
            Player::White => Player::Black,
            Player::Black => Player::White,
        }
    }

    /// True when `other` plays on the opposite side.
    pub fn is_enemy_to(self, other: Player) -> (r: bool)
        ensures
            r == (self != other),
    {
        self != other
    }

    /// Same as `is_enemy_to`.
    pub fn is_enemy(self, other: Player) -> (r: bool)
        ensures
            r == (self != other),
    {
        self.is_enemy_to(other)
    }
}

/// A piece: its side and whether it has been promoted.
#[derive(Debug, Clone, Copy, PartialEq, Eq, Structural)]
pub enum Piece {
    White,
    Black,
    WhiteQueen,
    BlackQueen,
}

impl Piece {
    pub open spec fn owner(self) -> Player {
        match self {
            Piece::White | Piece::WhiteQueen => Player::White,
            Piece::Black | Piece::BlackQueen => Player::Black,
        }
    }

    pub open spec fn queen(self) -> bool {
        self == Piece::WhiteQueen || self == Piece::BlackQueen
    }

    /// The side the piece plays for.
    pub fn player_affiliation(self) -> (r: Player)
        ensures
            r == self.owner(),
    {
        match self {
            Piece::White | Piece::WhiteQueen => Player::White,
            Piece::Black | Piece::BlackQueen => Player::Black,
        }
    }

    /// True for a promoted piece.
    pub fn is_queen(self) -> (r: bool)
        ensures
            r == self.queen(),
    {
        match self {
            Piece::WhiteQueen | Piece::BlackQueen => true,
            _ => false,
        }
    }
}

} // verus!
