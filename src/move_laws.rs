use vstd::prelude::*;

use crate::board::{cell_of, moved, well_shaped, Grid};
use crate::cell::{Cell, EMPTY};
use crate::coord::Position;
use crate::generator::{gather, legal_moves, must_capture, player_pieces};
use crate::moves::{
    apply_rules, capture_chains, chain_ends, chains_from, continuations, direct_captures,
    next_level, rule, rule_directions, simple_moves, step, Direction2D, MoveView, MAX_CHAIN,
};
use crate::player::{Piece, Player};

verus! {

/// Every move of `ms` ends on a square from which `piece` has no capture.
pub open spec fn all_finished(ms: Seq<MoveView>, piece: Piece) -> bool {
    forall|k: int|
        0 <= k < ms.len() ==> direct_captures(#[trigger] ms[k].board, ms[k].to, piece).len() == 0
}

/// Every move of `ms` starts at `from` and shifts the column by `k` or `-k`.
pub open spec fn all_shift(ms: Seq<MoveView>, from: Position, k: int) -> bool {
    forall|i: int|
        0 <= i < ms.len() ==> (#[trigger] ms[i]).from == from && (ms[i].to.x@ - from.x@ == k
            || ms[i].to.x@ - from.x@ == -k)
}

/// Every move of `ms` shifts the column by an even number of squares.
pub open spec fn all_even(ms: Seq<MoveView>) -> bool {
    forall|i: int| 0 <= i < ms.len() ==> (#[trigger] ms[i]).to.x@ - ms[i].from.x@ == 2 * (
    (ms[i].to.x@ - ms[i].from.x@) / 2)
}

/// Every move of `ms` shifts the column by an odd number of squares.
pub open spec fn all_odd(ms: Seq<MoveView>) -> bool {
    forall|i: int| 0 <= i < ms.len() ==> (#[trigger] ms[i]).to.x@ - ms[i].from.x@ == 2 * (
    (ms[i].to.x@ - ms[i].from.x@) / 2) + 1
}

proof fn lemma_chain_ends_finished(level: Seq<MoveView>, piece: Piece)
    ensures
        all_finished(chain_ends(level, piece), piece),
    decreases level.len(),
{
    if level.len() > 0 {
        lemma_chain_ends_finished(level.drop_last(), piece);
        let m = level.last();
        assert(continuations(m, piece).len() == direct_captures(m.board, m.to, piece).len());
    }
}

proof fn lemma_chains_from_finished(level: Seq<MoveView>, piece: Piece, depth: nat)
    ensures
        all_finished(chains_from(level, piece, depth), piece),
    decreases depth,
{
    if depth > 0 {
        lemma_chain_ends_finished(level, piece);
        lemma_chains_from_finished(next_level(level, piece), piece, (depth - 1) as nat);
        let a = chain_ends(level, piece);
        let b = chains_from(next_level(level, piece), piece, (depth - 1) as nat);
        assert forall|k: int| 0 <= k < (a + b).len() implies direct_captures(
            #[trigger] (a + b)[k].board,
            (a + b)[k].to,
            piece,
        ).len() == 0 by {
            if k >= a.len() {
                assert((a + b)[k] == b[k - a.len()]);
            }
        }
    }
}

/// A capture chain ends only where it must: from the landing square of
/// every chain, on the board that chain leaves, the piece has no further
/// capture.
pub proof fn lemma_chains_end_without_capture(g: Grid, from: Position, piece: Piece)
    ensures
        all_finished(capture_chains(g, from, piece), piece),
{
    lemma_chains_from_finished(direct_captures(g, from, piece), piece, MAX_CHAIN as nat);
}

proof fn lemma_apply_rules_shift(
    g: Grid,
    from: Position,
    piece: Piece,
    dirs: Seq<Direction2D>,
    capture: bool,
)
    ensures
        all_shift(apply_rules(g, from, piece, dirs, capture), from, if capture {
            2
        } else {
            1
        }),
    decreases dirs.len(),
{
    if dirs.len() > 0 {
        lemma_apply_rules_shift(g, from, piece, dirs.drop_last(), capture);
        let d = dirs.last();
        match rule(g, from, piece, d, capture) {
            Some(m) => {
                if capture {
                    assert(step(from, d, 2).is_some());
                } else {
                    assert(step(from, d, 1).is_some());
                }
            },
            None => {},
        }
    }
}

proof fn lemma_continuations_even(m: MoveView, piece: Piece)
    requires
        m.to.x@ - m.from.x@ == 2 * ((m.to.x@ - m.from.x@) / 2),
    ensures
        all_even(continuations(m, piece)),
{
    let dc = direct_captures(m.board, m.to, piece);
    lemma_apply_rules_shift(m.board, m.to, piece, rule_directions(m.board, m.to, piece), true);
    let c = continuations(m, piece);
    assert forall|i: int| 0 <= i < c.len() implies (#[trigger] c[i]).to.x@ - c[i].from.x@ == 2 * (
    (c[i].to.x@ - c[i].from.x@) / 2) by {
        assert(c[i].to == dc[i].to);
        assert(c[i].from == m.from);
    }
}

proof fn lemma_next_level_even(level: Seq<MoveView>, piece: Piece)
    requires
        all_even(level),
    ensures
        all_even(next_level(level, piece)),
    decreases level.len(),
{
    if level.len() > 0 {
        let init = level.drop_last();
        assert(all_even(init)) by {
            assert forall|i: int| 0 <= i < init.len() implies #[trigger] init[i] == level[i] by {}
        }
        lemma_next_level_even(init, piece);
        assert(level.last() == level[level.len() - 1]);
        lemma_continuations_even(level.last(), piece);
        let a = next_level(init, piece);
        let b = continuations(level.last(), piece);
        assert forall|i: int| 0 <= i < (a + b).len() implies (#[trigger] (a + b)[i]).to.x@ - (a
            + b)[i].from.x@ == 2 * (((a + b)[i].to.x@ - (a + b)[i].from.x@) / 2) by {
            if i < a.len() {
                assert((a + b)[i] == a[i]);
            } else {
                assert((a + b)[i] == b[i - a.len()]);
            }
        }
    }
}

proof fn lemma_chain_ends_even(level: Seq<MoveView>, piece: Piece)
    requires
        all_even(level),
    ensures
        all_even(chain_ends(level, piece)),
    decreases level.len(),
{
    if level.len() > 0 {
        let init = level.drop_last();
        assert(all_even(init)) by {
            assert forall|i: int| 0 <= i < init.len() implies #[trigger] init[i] == level[i] by {}
        }
        lemma_chain_ends_even(init, piece);
        assert(level.last() == level[level.len() - 1]);
    }
}

proof fn lemma_chains_from_even(level: Seq<MoveView>, piece: Piece, depth: nat)
    requires
        all_even(level),
    ensures
        all_even(chains_from(level, piece, depth)),
    decreases depth,
{
    if depth > 0 {
        lemma_chain_ends_even(level, piece);
        lemma_next_level_even(level, piece);
        lemma_chains_from_even(next_level(level, piece), piece, (depth - 1) as nat);
        let a = chain_ends(level, piece);
        let b = chains_from(next_level(level, piece), piece, (depth - 1) as nat);
        assert forall|i: int| 0 <= i < (a + b).len() implies (#[trigger] (a + b)[i]).to.x@ - (a
            + b)[i].from.x@ == 2 * (((a + b)[i].to.x@ - (a + b)[i].from.x@) / 2) by {
            if i < a.len() {
                assert((a + b)[i] == a[i]);
            } else {
                assert((a + b)[i] == b[i - a.len()]);
            }
        }
    }
}

proof fn lemma_capture_chains_even(g: Grid, from: Position, piece: Piece)
    ensures
        all_even(capture_chains(g, from, piece)),
{
    let dc = direct_captures(g, from, piece);
    lemma_apply_rules_shift(g, from, piece, rule_directions(g, from, piece), true);
    assert(all_even(dc)) by {
        assert forall|i: int| 0 <= i < dc.len() implies (#[trigger] dc[i]).to.x@ - dc[i].from.x@
            == 2 * ((dc[i].to.x@ - dc[i].from.x@) / 2) by {}
    }
    lemma_chains_from_even(dc, piece, MAX_CHAIN as nat);
}

proof fn lemma_gather_parity(g: Grid, pieces: Seq<(Position, Piece)>, chains: bool)
    ensures
        chains ==> all_even(gather(g, pieces, chains)),
        !chains ==> all_odd(gather(g, pieces, chains)),
    decreases pieces.len(),
{
    if pieces.len() > 0 {
        lemma_gather_parity(g, pieces.drop_last(), chains);
        let (p, pc) = pieces.last();
        let a = gather(g, pieces.drop_last(), chains);
        if chains {
            lemma_capture_chains_even(g, p, pc);
            let b = capture_chains(g, p, pc);
            assert forall|i: int| 0 <= i < (a + b).len() implies (#[trigger] (a + b)[i]).to.x@ - (a
                + b)[i].from.x@ == 2 * (((a + b)[i].to.x@ - (a + b)[i].from.x@) / 2) by {
                if i < a.len() {
                    assert((a + b)[i] == a[i]);
                } else {
                    assert((a + b)[i] == b[i - a.len()]);
                }
            }
        } else {
            lemma_apply_rules_shift(g, p, pc, rule_directions(g, p, pc), false);
            let b = simple_moves(g, p, pc);
            assert forall|i: int| 0 <= i < (a + b).len() implies (#[trigger] (a + b)[i]).to.x@ - (a
                + b)[i].from.x@ == 2 * (((a + b)[i].to.x@ - (a + b)[i].from.x@) / 2) + 1 by {
                if i < a.len() {
                    assert((a + b)[i] == a[i]);
                } else {
                    assert((a + b)[i] == b[i - a.len()]);
                }
            }
        }
    }
}

/// Mandatory capture: when some piece of `player` can capture, the legal
/// moves of `player` are the capture chains of its pieces, and none of them
/// is one of its simple moves.
pub proof fn lemma_mandatory_capture(g: Grid, player: Player)
    requires
        must_capture(g, player),
    ensures
        legal_moves(g, player) == gather(g, player_pieces(g, player), true),
        forall|i: int, j: int|
            0 <= i < legal_moves(g, player).len() && 0 <= j < gather(
                g,
                player_pieces(g, player),
                false,
            ).len() ==> #[trigger] legal_moves(g, player)[i] != #[trigger] gather(
                g,
                player_pieces(g, player),
                false,
            )[j],
{
    let pieces = player_pieces(g, player);
    lemma_gather_parity(g, pieces, true);
    lemma_gather_parity(g, pieces, false);
}

/// Promotion: a White man moved onto row 0, or a Black man moved onto row
/// 7, stands on its destination as a queen of its side; on any other
/// destination the moved cell is unchanged. The origin is left empty.
pub proof fn lemma_move_promotes(g: Grid, from: Position, to: Position)
    requires
        well_shaped(g),
        0 <= from.x@ < 8 && 0 <= from.y@ < 8,
        0 <= to.x@ < 8 && 0 <= to.y@ < 8,
        from != to,
    ensures
        cell_of(g, from) == Cell::WhitePiece && to.y@ == 0 ==> cell_of(moved(g, from, to), to)
            == Cell::WhiteQueen,
        cell_of(g, from) == Cell::BlackPiece && to.y@ == 7 ==> cell_of(moved(g, from, to), to)
            == Cell::BlackQueen,
        !(cell_of(g, from) == Cell::WhitePiece && to.y@ == 0) && !(cell_of(g, from)
            == Cell::BlackPiece && to.y@ == 7) ==> cell_of(moved(g, from, to), to) == cell_of(
            g,
            from,
        ),
        cell_of(moved(g, from, to), from) == EMPTY,
{
    assert(from.x != to.x || from.y != to.y);
    assert(from.x@ != to.x@ || from.y@ != to.y@);
}

} // verus!
