use vstd::prelude::*;

use crate::board::{Board, Grid, Row};
use crate::cell::Cell;
use crate::generator::{can_move, has_moves};
use crate::player::Player;

verus! {

/// Score of a lost position for White; a lost position for Black scores
/// its negation.
pub const WIN_SCORE: i32 = 200;

/// The material of the first `n` cells of a row.
pub open spec fn row_worth(cells: Seq<Cell>, n: int) -> int
    decreases n,
{
    if n <= 0 {
        0
    } else {
        row_worth(cells, n - 1) + cells[n - 1].worth()
    }
}

/// The material of the first `n` rows.
pub open spec fn rows_worth(g: Grid, n: int) -> int
    decreases n,
{
    if n <= 0 {
        0
    } else {
        rows_worth(g, n - 1) + row_worth(g[n - 1], 8)
    }
}

/// The signed material of the board: men 1, queens 5, White positive,
/// Black negative.
pub open spec fn material(g: Grid) -> int {
    rows_worth(g, 8)
}

/// The static score of a position from White's side: -200 when White
/// cannot move, else +200 when Black cannot move, else the material.
pub open spec fn evaluation(g: Grid) -> int {
    if !can_move(g, Player::White) {
        -200
    } else if !can_move(g, Player::Black) {
        200
    } else {
        material(g)
    }
}

pub proof fn lemma_row_worth_bounds(cells: Seq<Cell>, n: int)
    requires
        0 <= n,
    ensures
        -5 * n <= row_worth(cells, n) <= 5 * n,
    decreases n,
{
    if n > 0 {
        lemma_row_worth_bounds(cells, n - 1);
    }
}

pub proof fn lemma_rows_worth_bounds(g: Grid, n: int)
    requires
        0 <= n,
    ensures
        -40 * n <= rows_worth(g, n) <= 40 * n,
    decreases n,
{
    if n > 0 {
        lemma_rows_worth_bounds(g, n - 1);
        lemma_row_worth_bounds(g[n - 1], 8);
    }
}

/// Every score lies within [-320, 320].
pub proof fn lemma_evaluation_bounds(g: Grid)
    ensures
        -320 <= evaluation(g) <= 320,
{
    lemma_rows_worth_bounds(g, 8);
}

/// A value that has a static score.
pub trait Evaluate {
    spec fn score(&self) -> int;

    fn evaluate(&self) -> (r: i32)
        ensures
            r == self.score(),
    ;
}

impl Evaluate for Cell {
    open spec fn score(&self) -> int {
        self.worth()
    }

    fn evaluate(&self) -> (r: i32) {
        self.value()
    }
}

impl Evaluate for Row {
    open spec fn score(&self) -> int {
        row_worth(self@, 8)
    }

    fn evaluate(&self) -> (r: i32) {
        let mut sum: i32 = 0;
        let mut i: usize = 0;
        while i < 8
            invariant
                i <= 8,
                sum == row_worth(self@, i as int),
                -5 * i <= sum <= 5 * i,
            decreases 8 - i,
        {
            sum = sum + self.0[i].value();
            i = i + 1;
        }
        sum
    }
}

impl Evaluate for Board {
    open spec fn score(&self) -> int {
        evaluation(self@)
    }

    fn evaluate(&self) -> (r: i32) {
        evaluate(self)
    }
}

/// The signed material of the board.
fn material_sum(board: &Board) -> (r: i32)
    ensures
        r == material(board@),
{
    let mut sum: i32 = 0;
    let mut y: usize = 0;
    while y < 8
        invariant
            y <= 8,
            sum == rows_worth(board@, y as int),
            -40 * y <= sum <= 40 * y,
        decreases 8 - y,
    {
        let row = board.0[y];
        proof {
            lemma_row_worth_bounds(row@, 8);
            assert(board@[y as int] == row@);
        }
        sum = sum + row.evaluate();
        y = y + 1;
    }
    sum
}

/// The static score of `board` from White's side, see `evaluation`.
pub fn evaluate(board: &Board) -> (r: i32)
    ensures
        r == evaluation(board@),
        -320 <= r <= 320,
{
    proof {
        lemma_evaluation_bounds(board@);
    }
    if !has_moves(board, Player::White) {
        -WIN_SCORE
    } else if !has_moves(board, Player::Black) {
        WIN_SCORE
    } else {
        material_sum(board)
    }
}

} // verus!
