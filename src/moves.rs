use vstd::prelude::*;

use crate::board::{cell_of, moved, with_cell, Board, Grid};
use crate::cell::EMPTY;
use crate::coord::{coord_at, Coord, Position};
use crate::player::{Piece, Player};

verus! {

/// A move: where the piece starts, where it ends, and the whole board after
/// the move, with captured pieces removed and promotion applied.
#[derive(Debug, Clone, Copy, PartialEq, Eq)]
pub struct Move {
    pub from: Position,
    pub to: Position,
    pub next_board: Board,
}

/// A move as a mathematical value.
pub struct MoveView {
    pub from: Position,
    pub to: Position,
    pub board: Grid,
}

impl View for Move {
    type V = MoveView;

    open spec fn view(&self) -> MoveView {
        MoveView { from: self.from, to: self.to, board: self.next_board@ }
    }
}

pub open spec fn views(ms: Seq<Move>) -> Seq<MoveView> {
    ms.map_values(|m: Move| m@)
}

pub open spec fn opt_view(m: Option<Move>) -> Option<MoveView> {
    match m {
        Some(m) => Some(m@),
        None => None,
    }
}

/// The sign of a step along one axis.
#[derive(Debug, Clone, Copy, PartialEq, Eq, Structural)]
pub enum Direction {
    Pos,
    Neg,
}

/// A diagonal direction. `y: Neg` points towards row 0 ("up").
#[derive(Debug, Clone, Copy, PartialEq, Eq, Structural)]
pub struct Direction2D {
    pub x: Direction,
    pub y: Direction,
}

pub open spec fn shifted(v: int, d: Direction, k: int) -> int {
    match d {
        Direction::Pos => v + k,
        Direction::Neg => v - k,
    }
}

/// The position `k` diagonal steps from `p` in direction `d`, if it is on
/// the board.
pub open spec fn step(p: Position, d: Direction2D, k: int) -> Option<Position> {
    let nx = shifted(p.x@, d.x, k);
    let ny = shifted(p.y@, d.y, k);
    if 0 <= nx < 8 && 0 <= ny < 8 {
        Some(Position { x: coord_at(nx), y: coord_at(ny) })
    } else {
        None
    }
}

pub open spec fn up_left() -> Direction2D {
    Direction2D { x: Direction::Neg, y: Direction::Neg }
}

pub open spec fn up_right() -> Direction2D {
    Direction2D { x: Direction::Pos, y: Direction::Neg }
}

pub open spec fn down_left() -> Direction2D {
    Direction2D { x: Direction::Neg, y: Direction::Pos }
}

pub open spec fn down_right() -> Direction2D {
    Direction2D { x: Direction::Pos, y: Direction::Pos }
}

/// The simple-move rule: the neighbour in direction `d` is on the board and
/// empty; the piece moves there.
pub open spec fn simple_rule(g: Grid, from: Position, d: Direction2D) -> Option<MoveView> {
    match step(from, d, 1) {
        Some(to) => if cell_of(g, to).occupied() {
            None
        } else {
            Some(MoveView { from, to, board: moved(g, from, to) })
        },
        None => None,
    }
}

/// The capture rule: the neighbour in direction `d` holds an enemy of
/// `piece`, and the square behind it is on the board and empty; the piece
/// jumps there and the enemy is removed.
pub open spec fn capture_rule(g: Grid, from: Position, piece: Piece, d: Direction2D) -> Option<
    MoveView,
> {
    match (step(from, d, 1), step(from, d, 2)) {
        (Some(over), Some(to)) => if cell_of(g, over).hostile_to(piece.owner()) && !cell_of(
            g,
            to,
        ).occupied() {
            Some(MoveView { from, to, board: with_cell(moved(g, from, to), over, EMPTY) })
        } else {
            None
        },
        _ => None,
    }
}

pub open spec fn rule(g: Grid, from: Position, piece: Piece, d: Direction2D, capture: bool) -> Option<
    MoveView,
> {
    if capture {
        capture_rule(g, from, piece, d)
    } else {
        simple_rule(g, from, d)
    }
}

/// The directions tried from `from`, in order: the two forward directions of
/// the side whose piece stands on `from` (player filter), then the two
/// backward ones when `piece` is a queen (rank filter).
pub open spec fn rule_directions(g: Grid, from: Position, piece: Piece) -> Seq<Direction2D> {
    let owner = cell_of(g, from).owner();
    (if owner == Some(Player::White) {
        seq![up_left(), up_right()]
    } else {
        Seq::empty()
    }) + (if owner == Some(Player::Black) {
        seq![down_left(), down_right()]
    } else {
        Seq::empty()
    }) + (if piece == Piece::WhiteQueen {
        seq![down_left(), down_right()]
    } else {
        Seq::empty()
    }) + (if piece == Piece::BlackQueen {
        seq![up_left(), up_right()]
    } else {
        Seq::empty()
    })
}

/// The moves that the rules give in the directions `dirs`, in that order.
pub open spec fn apply_rules(
    g: Grid,
    from: Position,
    piece: Piece,
    dirs: Seq<Direction2D>,
    capture: bool,
) -> Seq<MoveView>
    decreases dirs.len(),
{
    if dirs.len() == 0 {
        Seq::empty()
    } else {
        let rest = apply_rules(g, from, piece, dirs.drop_last(), capture);
        match rule(g, from, piece, dirs.last(), capture) {
            Some(m) => rest.push(m),
            None => rest,
        }
    }
}

/// The simple moves of `piece` from `from`.
pub open spec fn simple_moves(g: Grid, from: Position, piece: Piece) -> Seq<MoveView> {
    apply_rules(g, from, piece, rule_directions(g, from, piece), false)
}

/// The single-jump captures of `piece` from `from`.
pub open spec fn direct_captures(g: Grid, from: Position, piece: Piece) -> Seq<MoveView> {
    apply_rules(g, from, piece, rule_directions(g, from, piece), true)
}

/// The captures that continue move `m`: one more jump from its landing
/// square on its board, still counted from the square where the turn began.
/// The piece keeps the rank it had when the turn began.
pub open spec fn continuations(m: MoveView, piece: Piece) -> Seq<MoveView> {
    direct_captures(m.board, m.to, piece).map_values(
        |e: MoveView| MoveView { from: m.from, to: e.to, board: e.board },
    )
}

/// All continuations of the moves of `level`, in order.
pub open spec fn next_level(level: Seq<MoveView>, piece: Piece) -> Seq<MoveView>
    decreases level.len(),
{
    if level.len() == 0 {
        Seq::empty()
    } else {
        next_level(level.drop_last(), piece) + continuations(level.last(), piece)
    }
}

/// The moves of `level` that no further capture continues, in order.
pub open spec fn chain_ends(level: Seq<MoveView>, piece: Piece) -> Seq<MoveView>
    decreases level.len(),
{
    if level.len() == 0 {
        Seq::empty()
    } else {
        let rest = chain_ends(level.drop_last(), piece);
        if continuations(level.last(), piece).len() == 0 {
            rest.push(level.last())
        } else {
            rest
        }
    }
}

/// The finished chains reached from `level`, one level of jumps after
/// another, over at most `depth` levels.
pub open spec fn chains_from(level: Seq<MoveView>, piece: Piece, depth: nat) -> Seq<MoveView>
    decreases depth,
{
    if depth == 0 {
        Seq::empty()
    } else {
        chain_ends(level, piece) + chains_from(next_level(level, piece), piece, (depth - 1) as nat)
    }
}

/// Every jump removes an enemy piece, and a board has 64 squares, so no
/// chain has more levels than this (`chain_laws::lemma_capture_chains_exhaustive`).
pub const MAX_CHAIN: usize = 64;

/// The capture chains of `piece` from `from`: for each branch of jumps,
/// the move that ends it, in breadth-first order.
pub open spec fn capture_chains(g: Grid, from: Position, piece: Piece) -> Seq<MoveView> {
    chains_from(direct_captures(g, from, piece), piece, MAX_CHAIN as nat)
}

/// The position `k` steps (1 or 2) from `p` in direction `d`, or `None` when
/// that leaves the board. This is the boundary filter: no coordinate
/// arithmetic happens before the room is checked.
pub fn offset_position(p: Position, d: Direction2D, k: u8) -> (r: Option<Position>)
    requires
        k <= 2,
    ensures
        r == step(p, d, k as int),
{
    let x = p.x.as_u8();
    let y = p.y.as_u8();
    let nx: Option<u8> = match d.x {
        Direction::Pos => if x + k < 8 {
            Some(x + k)
        } else {
            None
        },
        Direction::Neg => if x >= k {
            Some(x - k)
        } else {
            None
        },
    };
    let ny: Option<u8> = match d.y {
        Direction::Pos => if y + k < 8 {
            Some(y + k)
        } else {
            None
        },
        Direction::Neg => if y >= k {
            Some(y - k)
        } else {
            None
        },
    };
    match (nx, ny) {
        (Some(a), Some(b)) => Some(Position { x: Coord(a), y: Coord(b) }),
        _ => None,
    }
}

/// The simple-move rule in direction (`x`, `y`).
pub fn move_handler(board: &Board, from: Position, x: Direction, y: Direction) -> (r: Option<Move>)
    ensures
        opt_view(r) == simple_rule(board@, from, Direction2D { x, y }),
{
    let d = Direction2D { x, y };
    match offset_position(from, d, 1) {
        None => None,
        Some(to) => {
            if board.is_occupied(to) {
                None
            } else {
                let mut next_board = *board;
                next_board.move_cell(from, to);
                Some(Move { from, to, next_board })
            }
        },
    }
}

/// The capture rule in direction (`x`, `y`).
pub fn eat_handler(board: &Board, from: Position, piece: Piece, x: Direction, y: Direction) -> (r:
    Option<Move>)
    ensures
        opt_view(r) == capture_rule(board@, from, piece, Direction2D { x, y }),
{
    let d = Direction2D { x, y };
    match (offset_position(from, d, 1), offset_position(from, d, 2)) {
        (Some(jump_over), Some(to)) => {
            let condition = board.cell_at(jump_over).is_enemy_to(piece.player_affiliation())
                && !board.is_occupied(to);
            if !condition {
                None
            } else {
                let mut next_board = *board;
                next_board.move_cell(from, to);
                next_board.remove(jump_over);
                Some(Move { from, to, next_board })
            }
        },
        _ => None,
    }
}

/// The directions tried from `from` for `piece`, see `rule_directions`.
pub fn directions(board: &Board, from: Position, piece: Piece) -> (r: Vec<Direction2D>)
    ensures
        r@ == rule_directions(board@, from, piece),
{
    let owner = board.cell_at(from).player_affiliation();
    let up_l = Direction2D { x: Direction::Neg, y: Direction::Neg };
    let up_r = Direction2D { x: Direction::Pos, y: Direction::Neg };
    let down_l = Direction2D { x: Direction::Neg, y: Direction::Pos };
    let down_r = Direction2D { x: Direction::Pos, y: Direction::Pos };
    let mut r: Vec<Direction2D> = Vec::new();
    if owner == Some(Player::White) {
        r.push(up_l);
        r.push(up_r);
    }
    if owner == Some(Player::Black) {
        r.push(down_l);
        r.push(down_r);
    }
    if piece == Piece::WhiteQueen {
        r.push(down_l);
        r.push(down_r);
    }
    if piece == Piece::BlackQueen {
        r.push(up_l);
        r.push(up_r);
    }
    assert(r@ =~= rule_directions(board@, from, piece));
    r
}

/// Applies the simple-move rule (`capture` false) or the capture rule
/// (`capture` true) in every direction that applies to `piece` at `from`.
fn rule_moves(board: &Board, from: Position, piece: Piece, capture: bool) -> (r: Vec<Move>)
    ensures
        views(r@) == apply_rules(board@, from, piece, rule_directions(board@, from, piece), capture),
{
    let dirs = directions(board, from, piece);
    let ghost all = dirs@;
    let mut r: Vec<Move> = Vec::new();
    let mut i: usize = 0;
    while i < dirs.len()
        invariant
            dirs@ == all,
            i <= all.len(),
            views(r@) == apply_rules(board@, from, piece, all.take(i as int), capture),
        decreases all.len() - i,
    {
        let d = dirs[i];
        let m = if capture {
            eat_handler(board, from, piece, d.x, d.y)
        } else {
            move_handler(board, from, d.x, d.y)
        };
        proof {
            assert(all.take(i + 1).drop_last() =~= all.take(i as int));
            assert(all.take(i + 1).last() == d);
        }
        match m {
            Some(mv) => {
                let ghost before = r@;
                r.push(mv);
                assert(views(r@) =~= views(before).push(mv@));
            },
            None => {},
        }
        i = i + 1;
    }
    assert(all.take(all.len() as int) =~= all);
    r
}

/// The simple moves of `piece` standing at `from`: at most two for a man,
/// four for a queen.
pub fn moves(board: &Board, from: Position, piece: Piece) -> (r: Vec<Move>)
    ensures
        views(r@) == simple_moves(board@, from, piece),
{
    rule_moves(board, from, piece, false)
}

/// The single-jump captures of `piece` standing at `from`.
pub fn eat_moves(board: &Board, from: Position, piece: Piece) -> (r: Vec<Move>)
    ensures
        views(r@) == direct_captures(board@, from, piece),
{
    rule_moves(board, from, piece, true)
}

/// No level left, no chain left.
pub proof fn lemma_chains_from_empty(piece: Piece, depth: nat)
    ensures
        chains_from(Seq::empty(), piece, depth) == Seq::<MoveView>::empty(),
    decreases depth,
{
    if depth > 0 {
        assert(chain_ends(Seq::empty(), piece) == Seq::<MoveView>::empty());
        assert(next_level(Seq::empty(), piece) == Seq::<MoveView>::empty());
        lemma_chains_from_empty(piece, (depth - 1) as nat);
        assert(chains_from(Seq::empty(), piece, depth) =~= Seq::<MoveView>::empty());
    }
}

/// The capture chains of `piece` from `from`, expanded level by level as a
/// work queue: a move that some further capture continues is replaced by
/// its continuations, any other move is a finished chain. Each finished
/// move keeps `from` as its start.
pub fn chain_eat_moves(board: &Board, from: Position, piece: Piece) -> (r: Vec<Move>)
    ensures
        views(r@) == capture_chains(board@, from, piece),
{
    let mut level = eat_moves(board, from, piece);
    let mut result: Vec<Move> = Vec::new();
    let mut depth: usize = MAX_CHAIN;
    while depth > 0 && level.len() > 0
        invariant
            depth <= MAX_CHAIN,
            views(result@) + chains_from(views(level@), piece, depth as nat) == capture_chains(
                board@,
                from,
                piece,
            ),
        decreases depth,
    {
        let ghost lv = views(level@);
        let ghost before = views(result@);
        let mut next: Vec<Move> = Vec::new();
        let mut i: usize = 0;
        while i < level.len()
            invariant
                lv == views(level@),
                i <= lv.len(),
                views(result@) == before + chain_ends(lv.take(i as int), piece),
                views(next@) == next_level(lv.take(i as int), piece),
            decreases lv.len() - i,
        {
            let m = level[i];
            proof {
                assert(lv.take(i + 1).drop_last() =~= lv.take(i as int));
                assert(lv.take(i + 1).last() == m@);
            }
            let ext = eat_moves(&m.next_board, m.to, piece);
            if ext.len() == 0 {
                let ghost r0 = result@;
                result.push(m);
                assert(views(result@) =~= views(r0).push(m@));
                assert(views(result@) =~= before + chain_ends(lv.take(i + 1), piece));
            } else {
                let ghost n0 = views(next@);
                let mut j: usize = 0;
                while j < ext.len()
                    invariant
                        0 <= j <= ext@.len(),
                        views(ext@) == direct_captures(m.next_board@, m.to, piece),
                        views(next@) == n0 + continuations(m@, piece).take(j as int),
                    decreases ext@.len() - j,
                {
                    let e = ext[j];
                    let ghost n1 = next@;
                    next.push(Move { from: m.from, to: e.to, next_board: e.next_board });
                    assert(views(next@) =~= views(n1).push(continuations(m@, piece)[j as int]));
                    assert(continuations(m@, piece).take(j + 1) =~= continuations(m@, piece).take(
                        j as int,
                    ).push(continuations(m@, piece)[j as int]));
                    j = j + 1;
                }
                assert(continuations(m@, piece).take(ext@.len() as int) =~= continuations(
                    m@,
                    piece,
                ));
                assert(views(result@) =~= before + chain_ends(lv.take(i + 1), piece));
            }
            i = i + 1;
        }
        assert(lv.take(lv.len() as int) =~= lv);
        assert(views(result@) + chains_from(views(next@), piece, (depth - 1) as nat) =~= before
            + chains_from(lv, piece, depth as nat));
        level = next;
        depth = depth - 1;
    }
    proof {
        if depth > 0 {
            assert(views(level@) =~= Seq::<MoveView>::empty());
            lemma_chains_from_empty(piece, depth as nat);
        }
        assert(views(result@) =~= capture_chains(board@, from, piece));
    }
    result
}

} // verus!
