use vstd::prelude::*;

use crate::board::{cell_of, moved, well_shaped, with_cell, Grid};
use crate::cell::{promoted, Cell, EMPTY};
use crate::coord::{pos_at, Position};
use crate::generator::{
    can_move, capturers, gather, legal_moves, must_capture, pieces_upto,
    player_pieces, row_pieces,
};
use crate::moves::{
    apply_rules, capture_chains, capture_rule, chain_ends, chains_from, continuations,
    direct_captures, lemma_chains_from_empty, next_level, rule, rule_directions, simple_moves, step, Direction2D, MoveView,
    MAX_CHAIN,
};
use crate::player::{Piece, Player};

verus! {

pub open spec fn hostile_count(c: Cell, player: Player) -> int {
    if c.hostile_to(player) {
        1
    } else {
        0
    }
}

/// The enemies of `player` among the first `n` cells of a row.
pub open spec fn row_enemies(s: Seq<Cell>, player: Player, n: int) -> int
    decreases n,
{
    if n <= 0 {
        0
    } else {
        row_enemies(s, player, n - 1) + hostile_count(s[n - 1], player)
    }
}

/// The enemies of `player` in the first `n` rows.
pub open spec fn rows_enemies(g: Grid, player: Player, n: int) -> int
    decreases n,
{
    if n <= 0 {
        0
    } else {
        rows_enemies(g, player, n - 1) + row_enemies(g[n - 1], player, 8)
    }
}

/// The number of pieces on the board that play against `player`.
pub open spec fn enemies(g: Grid, player: Player) -> int {
    rows_enemies(g, player, 8)
}

pub open spec fn on_board(p: Position) -> bool {
    0 <= p.x@ < 8 && 0 <= p.y@ < 8
}

proof fn lemma_row_enemies_range(s: Seq<Cell>, player: Player, n: int)
    requires
        0 <= n,
    ensures
        0 <= row_enemies(s, player, n) <= n,
    decreases n,
{
    if n > 0 {
        lemma_row_enemies_range(s, player, n - 1);
    }
}

proof fn lemma_rows_enemies_range(g: Grid, player: Player, n: int)
    requires
        0 <= n,
    ensures
        0 <= rows_enemies(g, player, n) <= 8 * n,
    decreases n,
{
    if n > 0 {
        lemma_rows_enemies_range(g, player, n - 1);
        lemma_row_enemies_range(g[n - 1], player, 8);
    }
}

proof fn lemma_row_enemies_prefix(s: Seq<Cell>, t: Seq<Cell>, player: Player, n: int)
    requires
        forall|i: int| 0 <= i < n ==> s[i] == t[i],
    ensures
        row_enemies(s, player, n) == row_enemies(t, player, n),
    decreases n,
{
    if n > 0 {
        lemma_row_enemies_prefix(s, t, player, n - 1);
    }
}

proof fn lemma_row_enemies_update(s: Seq<Cell>, player: Player, n: int, x: int, c: Cell)
    requires
        0 <= x < n <= s.len(),
    ensures
        row_enemies(s.update(x, c), player, n) == row_enemies(s, player, n) - hostile_count(
            s[x],
            player,
        ) + hostile_count(c, player),
    decreases n,
{
    if x == n - 1 {
        lemma_row_enemies_prefix(s.update(x, c), s, player, n - 1);
    } else {
        lemma_row_enemies_update(s, player, n - 1, x, c);
    }
}

proof fn lemma_rows_enemies_prefix(g: Grid, h: Grid, player: Player, n: int)
    requires
        forall|i: int| 0 <= i < n ==> g[i] == h[i],
    ensures
        rows_enemies(g, player, n) == rows_enemies(h, player, n),
    decreases n,
{
    if n > 0 {
        lemma_rows_enemies_prefix(g, h, player, n - 1);
    }
}

proof fn lemma_rows_enemies_update(g: Grid, player: Player, n: int, y: int, row: Seq<Cell>)
    requires
        0 <= y < n <= g.len(),
    ensures
        rows_enemies(g.update(y, row), player, n) == rows_enemies(g, player, n) - row_enemies(
            g[y],
            player,
            8,
        ) + row_enemies(row, player, 8),
    decreases n,
{
    if y == n - 1 {
        lemma_rows_enemies_prefix(g.update(y, row), g, player, n - 1);
    } else {
        lemma_rows_enemies_update(g, player, n - 1, y, row);
    }
}

/// Writing one cell changes the count by what it removes and what it adds.
proof fn lemma_with_cell_enemies(g: Grid, p: Position, c: Cell, player: Player)
    requires
        well_shaped(g),
        on_board(p),
    ensures
        well_shaped(with_cell(g, p, c)),
        enemies(with_cell(g, p, c), player) == enemies(g, player) - hostile_count(
            cell_of(g, p),
            player,
        ) + hostile_count(c, player),
{
    let row = g[p.y@];
    lemma_row_enemies_update(row, player, 8, p.x@, c);
    lemma_rows_enemies_update(g, player, 8, p.y@, row.update(p.x@, c));
    let g2 = with_cell(g, p, c);
    assert forall|y: int| 0 <= y < 8 implies (#[trigger] g2[y]).len() == 8 by {}
}

/// A single jump removes exactly one enemy of the jumping piece.
proof fn lemma_capture_removes_one(g: Grid, from: Position, piece: Piece, d: Direction2D)
    requires
        well_shaped(g),
        on_board(from),
        capture_rule(g, from, piece, d).is_some(),
    ensures
        ({
            let m = capture_rule(g, from, piece, d).unwrap();
            &&& well_shaped(m.board)
            &&& on_board(m.to)
            &&& enemies(m.board, piece.owner()) == enemies(g, piece.owner()) - 1
        }),
{
    let player = piece.owner();
    let over = step(from, d, 1).unwrap();
    let to = step(from, d, 2).unwrap();
    let c = cell_of(g, from);
    let g1 = with_cell(g, to, promoted(to.y@, c));
    let g2 = with_cell(g1, from, EMPTY);
    let g3 = with_cell(g2, over, EMPTY);
    assert(hostile_count(promoted(to.y@, c), player) == hostile_count(c, player));
    lemma_with_cell_enemies(g, to, promoted(to.y@, c), player);
    assert(from.x@ != to.x@);
    assert(cell_of(g1, from) == c);
    lemma_with_cell_enemies(g1, from, EMPTY, player);
    assert(over.x@ != to.x@ && over.x@ != from.x@);
    assert(cell_of(g2, over) == cell_of(g, over));
    lemma_with_cell_enemies(g2, over, EMPTY, player);
    assert(g2 == moved(g, from, to));
}

/// The moves of `level` are on well-shaped boards, land on the board, and
/// leave at most `n` enemies of `piece`.
pub open spec fn level_bounded(level: Seq<MoveView>, piece: Piece, n: int) -> bool {
    forall|k: int|
        0 <= k < level.len() ==> {
            &&& well_shaped((#[trigger] level[k]).board)
            &&& on_board(level[k].to)
            &&& 0 <= enemies(level[k].board, piece.owner()) <= n
        }
}

proof fn lemma_captures_bounded(
    g: Grid,
    from: Position,
    piece: Piece,
    dirs: Seq<Direction2D>,
)
    requires
        well_shaped(g),
        on_board(from),
    ensures
        level_bounded(apply_rules(g, from, piece, dirs, true), piece, enemies(g, piece.owner()) - 1),
    decreases dirs.len(),
{
    if dirs.len() > 0 {
        let rest = apply_rules(g, from, piece, dirs.drop_last(), true);
        lemma_captures_bounded(g, from, piece, dirs.drop_last());
        if rule(g, from, piece, dirs.last(), true).is_some() {
            let m = rule(g, from, piece, dirs.last(), true).unwrap();
            lemma_capture_removes_one(g, from, piece, dirs.last());
            lemma_rows_enemies_range(m.board, piece.owner(), 8);
            let all = rest.push(m);
            assert forall|k: int| 0 <= k < all.len() implies {
                &&& well_shaped((#[trigger] all[k]).board)
                &&& on_board(all[k].to)
                &&& 0 <= enemies(all[k].board, piece.owner()) <= enemies(g, piece.owner()) - 1
            } by {
                if k < rest.len() {
                    assert(all[k] == rest[k]);
                }
            }
        }
    }
}

proof fn lemma_direct_captures_bounded(g: Grid, from: Position, piece: Piece)
    requires
        well_shaped(g),
        on_board(from),
    ensures
        level_bounded(direct_captures(g, from, piece), piece, enemies(g, piece.owner()) - 1),
{
    lemma_captures_bounded(g, from, piece, rule_directions(g, from, piece));
}

proof fn lemma_next_level_bounded(level: Seq<MoveView>, piece: Piece, n: int)
    requires
        level_bounded(level, piece, n),
    ensures
        level_bounded(next_level(level, piece), piece, n - 1),
        n <= 0 ==> next_level(level, piece).len() == 0,
    decreases level.len(),
{
    if level.len() > 0 {
        let init = level.drop_last();
        let m = level.last();
        assert(level_bounded(init, piece, n)) by {
            assert forall|k: int| 0 <= k < init.len() implies #[trigger] init[k] == level[k] by {}
        }
        assert(m == level[level.len() - 1]);
        lemma_next_level_bounded(init, piece, n);
        lemma_direct_captures_bounded(m.board, m.to, piece);
        lemma_rows_enemies_range(m.board, piece.owner(), 8);
        let dc = direct_captures(m.board, m.to, piece);
        let a = next_level(init, piece);
        let b = continuations(m, piece);
        if dc.len() > 0 {
            lemma_rows_enemies_range(dc[0].board, piece.owner(), 8);
            assert(dc[0] == dc[0]);
        }
        assert forall|k: int| 0 <= k < b.len() implies #[trigger] b[k].board == dc[k].board
            && b[k].to == dc[k].to by {}
        assert forall|k: int| 0 <= k < (a + b).len() implies {
            &&& well_shaped((#[trigger] (a + b)[k]).board)
            &&& on_board((a + b)[k].to)
            &&& 0 <= enemies((a + b)[k].board, piece.owner()) <= n - 1
        } by {
            if k < a.len() {
                assert((a + b)[k] == a[k]);
            } else {
                assert((a + b)[k] == b[k - a.len()]);
                assert(dc[k - a.len()] == dc[k - a.len()]);
            }
        }
    }
}

/// Levels beyond the point where no enemy can be left add nothing: the
/// chains found within `depth` levels are all the chains there are.
proof fn lemma_chains_from_complete(level: Seq<MoveView>, piece: Piece, n: int, depth: nat, extra: nat)
    requires
        level_bounded(level, piece, n),
        n < depth,
        depth > 0,
    ensures
        chains_from(level, piece, depth) == chains_from(level, piece, depth + extra),
    decreases depth,
{
    let next = next_level(level, piece);
    lemma_next_level_bounded(level, piece, n);
    if n <= 0 {
        assert(next =~= Seq::<MoveView>::empty());
        lemma_chains_from_empty(piece, (depth - 1) as nat);
        lemma_chains_from_empty(piece, (depth - 1 + extra) as nat);
    } else {
        lemma_chains_from_complete(next, piece, n - 1, (depth - 1) as nat, extra);
    }
    assert((depth + extra - 1) as nat == (depth - 1 + extra) as nat);
}

proof fn lemma_next_level_nonempty(level: Seq<MoveView>, piece: Piece)
    requires
        level.len() > 0,
        chain_ends(level, piece).len() == 0,
    ensures
        next_level(level, piece).len() > 0,
    decreases level.len(),
{
    assert(continuations(level.last(), piece).len() > 0);
}

proof fn lemma_chains_from_nonempty(level: Seq<MoveView>, piece: Piece, n: int, depth: nat)
    requires
        level_bounded(level, piece, n),
        n < depth,
        level.len() > 0,
    ensures
        chains_from(level, piece, depth).len() > 0,
    decreases depth,
{
    lemma_next_level_bounded(level, piece, n);
    assert(level[0] == level[0]);
    let a = chain_ends(level, piece);
    let b = chains_from(next_level(level, piece), piece, (depth - 1) as nat);
    if a.len() == 0 {
        lemma_next_level_nonempty(level, piece);
        let next = next_level(level, piece);
        assert(next[0] == next[0]);
        lemma_chains_from_nonempty(next, piece, n - 1, (depth - 1) as nat);
    }
    assert((a + b).len() == a.len() + b.len());
}

/// The chain search is exhaustive: allowing more levels of jumps than
/// `MAX_CHAIN` finds no further chain, because each jump removes one of the
/// at most 64 enemy pieces.
pub proof fn lemma_capture_chains_exhaustive(g: Grid, from: Position, piece: Piece, extra: nat)
    requires
        well_shaped(g),
        on_board(from),
    ensures
        capture_chains(g, from, piece) == chains_from(
            direct_captures(g, from, piece),
            piece,
            MAX_CHAIN as nat + extra,
        ),
{
    lemma_direct_captures_bounded(g, from, piece);
    lemma_rows_enemies_range(g, piece.owner(), 8);
    lemma_chains_from_complete(
        direct_captures(g, from, piece),
        piece,
        enemies(g, piece.owner()) - 1,
        MAX_CHAIN as nat,
        extra,
    );
}

/// A piece has a capture chain exactly when it has a single-jump capture.
pub proof fn lemma_capture_chains_nonempty(g: Grid, from: Position, piece: Piece)
    requires
        well_shaped(g),
        on_board(from),
    ensures
        capture_chains(g, from, piece).len() > 0 <==> direct_captures(g, from, piece).len() > 0,
{
    let dc = direct_captures(g, from, piece);
    lemma_direct_captures_bounded(g, from, piece);
    lemma_rows_enemies_range(g, piece.owner(), 8);
    if dc.len() > 0 {
        lemma_chains_from_nonempty(dc, piece, enemies(g, piece.owner()) - 1, MAX_CHAIN as nat);
    } else {
        assert(dc =~= Seq::<MoveView>::empty());
        lemma_chains_from_empty(piece, MAX_CHAIN as nat);
    }
}

/// The moves `gather` takes from one piece.
pub open spec fn piece_part(g: Grid, entry: (Position, Piece), chains: bool) -> Seq<MoveView> {
    if chains {
        capture_chains(g, entry.0, entry.1)
    } else {
        simple_moves(g, entry.0, entry.1)
    }
}

pub open spec fn all_on_board(pieces: Seq<(Position, Piece)>) -> bool {
    forall|k: int| 0 <= k < pieces.len() ==> on_board((#[trigger] pieces[k]).0)
}

proof fn lemma_row_pieces_on_board(g: Grid, player: Player, y: int, n: int)
    requires
        0 <= y < 8,
        n <= 8,
    ensures
        all_on_board(row_pieces(g, player, y, n)),
    decreases n,
{
    if n > 0 {
        lemma_row_pieces_on_board(g, player, y, n - 1);
        let rest = row_pieces(g, player, y, n - 1);
        let all = row_pieces(g, player, y, n);
        assert(on_board(pos_at(n - 1, y)));
        assert forall|k: int| 0 <= k < all.len() implies on_board((#[trigger] all[k]).0) by {
            if k < rest.len() {
                assert(all[k] == rest[k]);
            }
        }
    }
}

proof fn lemma_pieces_upto_on_board(g: Grid, player: Player, n: int)
    requires
        n <= 8,
    ensures
        all_on_board(pieces_upto(g, player, n)),
    decreases n,
{
    if n > 0 {
        lemma_pieces_upto_on_board(g, player, n - 1);
        lemma_row_pieces_on_board(g, player, n - 1, 8);
        let a = pieces_upto(g, player, n - 1);
        let b = row_pieces(g, player, n - 1, 8);
        assert forall|k: int| 0 <= k < (a + b).len() implies on_board((#[trigger] (a + b)[k]).0) by {
            if k < a.len() {
                assert((a + b)[k] == a[k]);
            } else {
                assert((a + b)[k] == b[k - a.len()]);
            }
        }
    }
}

proof fn lemma_gather_nonempty(g: Grid, pieces: Seq<(Position, Piece)>, chains: bool)
    ensures
        gather(g, pieces, chains).len() > 0 <==> exists|k: int|
            0 <= k < pieces.len() && piece_part(g, #[trigger] pieces[k], chains).len() > 0,
    decreases pieces.len(),
{
    if pieces.len() > 0 {
        let init = pieces.drop_last();
        lemma_gather_nonempty(g, init, chains);
        let last = pieces.last();
        assert(gather(g, pieces, chains) == gather(g, init, chains) + piece_part(g, last, chains));
        if gather(g, pieces, chains).len() > 0 {
            if gather(g, init, chains).len() > 0 {
                let k = choose|k: int|
                    0 <= k < init.len() && piece_part(g, #[trigger] init[k], chains).len() > 0;
                assert(pieces[k] == init[k]);
            } else {
                assert(pieces[pieces.len() - 1] == last);
            }
        } else {
            assert forall|k: int| 0 <= k < pieces.len() implies piece_part(
                g,
                #[trigger] pieces[k],
                chains,
            ).len() == 0 by {
                if k < init.len() {
                    assert(pieces[k] == init[k]);
                }
            }
        }
    }
}

proof fn lemma_capturers_nonempty(g: Grid, pieces: Seq<(Position, Piece)>)
    ensures
        capturers(g, pieces).len() > 0 <==> exists|k: int|
            0 <= k < pieces.len() && direct_captures(g, (#[trigger] pieces[k]).0, pieces[k].1).len()
                > 0,
    decreases pieces.len(),
{
    if pieces.len() > 0 {
        let init = pieces.drop_last();
        lemma_capturers_nonempty(g, init);
        let last = pieces.last();
        if capturers(g, pieces).len() > 0 {
            if capturers(g, init).len() > 0 {
                let k = choose|k: int|
                    0 <= k < init.len() && direct_captures(g, (#[trigger] init[k]).0, init[k].1).len()
                        > 0;
                assert(pieces[k] == init[k]);
            } else {
                assert(pieces[pieces.len() - 1] == last);
            }
        } else {
            assert forall|k: int| 0 <= k < pieces.len() implies direct_captures(
                g,
                (#[trigger] pieces[k]).0,
                pieces[k].1,
            ).len() == 0 by {
                if k < init.len() {
                    assert(pieces[k] == init[k]);
                }
            }
        }
    }
}

/// A side has a move (`has_moves`) exactly when its list of legal moves
/// (`available_moves`) is not empty; so `evaluate` scores -200 or +200
/// exactly on the positions where one side has no legal move.
pub proof fn lemma_can_move_iff_legal_moves(g: Grid, player: Player)
    requires
        well_shaped(g),
    ensures
        can_move(g, player) <==> legal_moves(g, player).len() > 0,
{
    let pieces = player_pieces(g, player);
    lemma_pieces_upto_on_board(g, player, 8);
    lemma_gather_nonempty(g, pieces, true);
    lemma_gather_nonempty(g, pieces, false);
    lemma_capturers_nonempty(g, pieces);
    assert forall|k: int| 0 <= k < pieces.len() implies piece_part(g, #[trigger] pieces[k], true).len()
        > 0 <==> direct_captures(g, pieces[k].0, pieces[k].1).len() > 0 by {
        lemma_capture_chains_nonempty(g, pieces[k].0, pieces[k].1);
    }
    if must_capture(g, player) {
        let k = choose|k: int|
            0 <= k < pieces.len() && direct_captures(g, (#[trigger] pieces[k]).0, pieces[k].1).len()
                > 0;
        assert(piece_part(g, pieces[k], true).len() > 0);
        assert(simple_moves(g, pieces[k].0, pieces[k].1).len() > 0 || direct_captures(
            g,
            pieces[k].0,
            pieces[k].1,
        ).len() > 0);
    } else {
        if can_move(g, player) {
            let k = choose|k: int|
                0 <= k < pieces.len() && (simple_moves(g, pieces[k].0, pieces[k].1).len() > 0
                    || direct_captures(g, pieces[k].0, pieces[k].1).len() > 0);
            assert(piece_part(g, pieces[k], false).len() > 0);
        }
        if legal_moves(g, player).len() > 0 {
            let k = choose|k: int|
                0 <= k < pieces.len() && piece_part(g, #[trigger] pieces[k], false).len() > 0;
            assert(simple_moves(g, pieces[k].0, pieces[k].1).len() > 0);
        }
    }
}

} // verus!
