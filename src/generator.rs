use vstd::prelude::*;

use crate::board::{cell_of, Board, Grid};
use crate::coord::{pos_at, Coord, Position};
use crate::moves::{
    capture_chains, chain_eat_moves, direct_captures, eat_moves, moves, simple_moves, views,
    Move, MoveView,
};
use crate::player::{Piece, Player};

verus! {

/// The piece at `p` when it belongs to `player`.
pub open spec fn owned_piece(g: Grid, p: Position, player: Player) -> Option<Piece> {
    match cell_of(g, p).piece_of() {
        Some(pc) => if pc.owner() == player {
            Some(pc)
        } else {
            None
        },
        None => None,
    }
}

/// The pieces of `player` in the first `n` columns of row `y`, left to right.
pub open spec fn row_pieces(g: Grid, player: Player, y: int, n: int) -> Seq<(Position, Piece)>
    decreases n,
{
    if n <= 0 {
        Seq::empty()
    } else {
        let rest = row_pieces(g, player, y, n - 1);
        match owned_piece(g, pos_at(n - 1, y), player) {
            Some(pc) => rest.push((pos_at(n - 1, y), pc)),
            None => rest,
        }
    }
}

/// The pieces of `player` in the first `n` rows, row by row.
pub open spec fn pieces_upto(g: Grid, player: Player, n: int) -> Seq<(Position, Piece)>
    decreases n,
{
    if n <= 0 {
        Seq::empty()
    } else {
        pieces_upto(g, player, n - 1) + row_pieces(g, player, n - 1, 8)
    }
}

/// The pieces of `player` with their squares, in row-major order.
pub open spec fn player_pieces(g: Grid, player: Player) -> Seq<(Position, Piece)> {
    pieces_upto(g, player, 8)
}

/// The squares of `pieces` whose piece has a single-jump capture.
pub open spec fn capturers(g: Grid, pieces: Seq<(Position, Piece)>) -> Seq<Position>
    decreases pieces.len(),
{
    if pieces.len() == 0 {
        Seq::empty()
    } else {
        let rest = capturers(g, pieces.drop_last());
        let (p, pc) = pieces.last();
        if direct_captures(g, p, pc).len() > 0 {
            rest.push(p)
        } else {
            rest
        }
    }
}

/// The squares of `player`'s pieces that have a capture, in row-major order.
pub open spec fn can_capture(g: Grid, player: Player) -> Seq<Position> {
    capturers(g, player_pieces(g, player))
}

/// Some piece of `player` can capture: captures are then mandatory.
pub open spec fn must_capture(g: Grid, player: Player) -> bool {
    can_capture(g, player).len() > 0
}

/// The moves of the pieces in `pieces`, one piece after another: capture
/// chains when `chains` holds, simple moves otherwise.
pub open spec fn gather(g: Grid, pieces: Seq<(Position, Piece)>, chains: bool) -> Seq<MoveView>
    decreases pieces.len(),
{
    if pieces.len() == 0 {
        Seq::empty()
    } else {
        let (p, pc) = pieces.last();
        gather(g, pieces.drop_last(), chains) + if chains {
            capture_chains(g, p, pc)
        } else {
            simple_moves(g, p, pc)
        }
    }
}

/// The legal moves of `player`: when some piece can capture, the capture
/// chains of every piece and no simple move; otherwise the simple moves of
/// every piece.
pub open spec fn legal_moves(g: Grid, player: Player) -> Seq<MoveView> {
    gather(g, player_pieces(g, player), must_capture(g, player))
}

/// Some piece of `player` has a simple move or a capture.
pub open spec fn can_move(g: Grid, player: Player) -> bool {
    let pieces = player_pieces(g, player);
    exists|i: int|
        0 <= i < pieces.len() && (simple_moves(g, pieces[i].0, pieces[i].1).len() > 0
            || direct_captures(g, pieces[i].0, pieces[i].1).len() > 0)
}

/// The moves of the piece at `p`: `None` for an empty square; the capture
/// chains of the piece when its side must capture (empty when this piece
/// cannot); its simple moves otherwise.
pub open spec fn piece_moves(g: Grid, p: Position) -> Option<Seq<MoveView>> {
    match cell_of(g, p).piece_of() {
        None => None,
        Some(pc) => Some(
            if must_capture(g, pc.owner()) {
                capture_chains(g, p, pc)
            } else {
                simple_moves(g, p, pc)
            },
        ),
    }
}

/// The pieces of `player` with their squares, in row-major order.
pub fn player_positions(board: &Board, player: Player) -> (r: Vec<(Position, Piece)>)
    ensures
        r@ == player_pieces(board@, player),
{
    let mut r: Vec<(Position, Piece)> = Vec::new();
    let mut y: u8 = 0;
    while y < 8
        invariant
            y <= 8,
            r@ == pieces_upto(board@, player, y as int),
        decreases 8 - y,
    {
        let row = player_row_positions(board, player, Coord(y));
        let mut row = row;
        r.append(&mut row);
        y = y + 1;
    }
    r
}

/// The pieces of `player` on row `y`, left to right.
fn player_row_positions(board: &Board, player: Player, y: Coord) -> (r: Vec<(Position, Piece)>)
    ensures
        r@ == row_pieces(board@, player, y@, 8),
{
    proof {
        use_type_invariant(y);
    }
    let mut r: Vec<(Position, Piece)> = Vec::new();
    let mut x: u8 = 0;
    while x < 8
        invariant
            x <= 8,
            y@ < 8,
            r@ == row_pieces(board@, player, y@, x as int),
        decreases 8 - x,
    {
        let p = Position { x: Coord(x), y };
        assert(p == pos_at(x as int, y@));
        match board.cell_at(p).into_piece() {
            Some(pc) => {
                if pc.player_affiliation() == player {
                    r.push((p, pc));
                }
            },
            None => {},
        }
        x = x + 1;
    }
    r
}

/// True when `piece` at `from` has a single-jump capture.
fn exists_eat_move_from_position(board: &Board, from: Position, piece: Piece) -> (r: bool)
    ensures
        r == (direct_captures(board@, from, piece).len() > 0),
{
    eat_moves(board, from, piece).len() > 0
}

/// True when `piece` at `from` has a simple move.
fn exists_move_from_position(board: &Board, from: Position, piece: Piece) -> (r: bool)
    ensures
        r == (simple_moves(board@, from, piece).len() > 0),
{
    moves(board, from, piece).len() > 0
}

/// The squares of `player`'s pieces that have a capture available, in
/// row-major order.
pub fn can_eat(board: &Board, player: Player) -> (r: Vec<Position>)
    ensures
        r@ == can_capture(board@, player),
{
    let pieces = player_positions(board, player);
    let ghost all = pieces@;
    let mut r: Vec<Position> = Vec::new();
    let mut i: usize = 0;
    while i < pieces.len()
        invariant
            pieces@ == all,
            i <= all.len(),
            r@ == capturers(board@, all.take(i as int)),
        decreases all.len() - i,
    {
        let (p, pc) = pieces[i];
        proof {
            assert(all.take(i + 1).drop_last() =~= all.take(i as int));
        }
        if exists_eat_move_from_position(board, p, pc) {
            r.push(p);
        }
        i = i + 1;
    }
    assert(all.take(all.len() as int) =~= all);
    r
}

/// True when some piece of `player` can capture.
fn player_can_make_eat_move(board: &Board, player: Player) -> (r: bool)
    ensures
        r == must_capture(board@, player),
{
    can_eat(board, player).len() > 0
}

/// True when some piece of `player` has a simple move or a capture; false
/// for a side that is blocked or has no pieces left.
pub fn has_moves(board: &Board, player: Player) -> (r: bool)
    ensures
        r == can_move(board@, player),
{
    let pieces = player_positions(board, player);
    let ghost all = pieces@;
    let mut i: usize = 0;
    while i < pieces.len()
        invariant
            pieces@ == all,
            all == player_pieces(board@, player),
            i <= all.len(),
            forall|j: int|
                0 <= j < i ==> !(simple_moves(board@, all[j].0, all[j].1).len() > 0
                    || direct_captures(board@, all[j].0, all[j].1).len() > 0),
        decreases all.len() - i,
    {
        let (p, pc) = pieces[i];
        if exists_move_from_position(board, p, pc) || exists_eat_move_from_position(board, p, pc) {
            assert(all[i as int] == (p, pc));
            assert(simple_moves(board@, all[i as int].0, all[i as int].1).len() > 0
                || direct_captures(board@, all[i as int].0, all[i as int].1).len() > 0);
            return true;
        }
        i = i + 1;
    }
    false
}

/// The moves of all the pieces in `pieces`: capture chains when `chains`
/// holds, simple moves otherwise.
fn gather_moves(board: &Board, pieces: &Vec<(Position, Piece)>, chains: bool) -> (r: Vec<Move>)
    ensures
        views(r@) == gather(board@, pieces@, chains),
{
    let ghost all = pieces@;
    let mut r: Vec<Move> = Vec::new();
    let mut i: usize = 0;
    while i < pieces.len()
        invariant
            pieces@ == all,
            i <= all.len(),
            views(r@) == gather(board@, all.take(i as int), chains),
        decreases all.len() - i,
    {
        let (p, pc) = pieces[i];
        proof {
            assert(all.take(i + 1).drop_last() =~= all.take(i as int));
        }
        let mut ms = if chains {
            chain_eat_moves(board, p, pc)
        } else {
            moves(board, p, pc)
        };
        let ghost r0 = r@;
        let ghost m0 = ms@;
        r.append(&mut ms);
        assert(views(r@) =~= views(r0) + views(m0));
        i = i + 1;
    }
    assert(all.take(all.len() as int) =~= all);
    r
}

/// The legal moves of `player`. When any piece of `player` can capture,
/// these are the finished capture chains of every such piece and no simple
/// move; otherwise the simple moves of every piece. Empty when `player`
/// cannot move.
pub fn available_moves(board: &Board, player: Player) -> (r: Vec<Move>)
    ensures
        views(r@) == legal_moves(board@, player),
{
    let pieces = player_positions(board, player);
    let chains = player_can_make_eat_move(board, player);
    gather_moves(board, &pieces, chains)
}

/// The moves of the piece at `position`: `None` when no piece stands there;
/// otherwise its capture chains when its side must capture (an empty list
/// when this piece cannot capture), and its simple moves when not.
pub fn moves_for(board: &Board, position: Position) -> (r: Option<Vec<Move>>)
    ensures
        r.is_none() <==> !cell_of(board@, position).occupied(),
        r.is_none() <==> piece_moves(board@, position).is_none(),
        r.is_some() ==> views(r.unwrap()@) == piece_moves(board@, position).unwrap(),
{
    match board.cell_at(position).into_piece() {
        None => None,
        Some(piece) => {
            if player_can_make_eat_move(board, piece.player_affiliation()) {
                Some(chain_eat_moves(board, position, piece))
            } else {
                Some(moves(board, position, piece))
            }
        },
    }
}

} // verus!
