use vstd::prelude::*;

use crate::board::{well_shaped, Grid};
use crate::chain_laws::lemma_can_move_iff_legal_moves;
use crate::evaluate::{evaluation, lemma_evaluation_bounds, material};
use crate::generator::{can_capture, can_move, legal_moves};
use crate::moves::MoveView;
use crate::player::Player;
use crate::solution::{
    alphabeta_scan, alphabeta_solution, alphabeta_value, better, keep_best, minimax_scan,
    minimax_solution, minimax_value, narrowed, SolutionView,
};

verus! {

/// The alpha-beta score `a` of a node whose minimax score is `v`, searched
/// with the window (`lo`, `hi`): exact inside the window, and on the same
/// side of the window as `v` outside it.
pub open spec fn window_holds(v: int, a: int, lo: int, hi: int) -> bool {
    &&& (lo < v < hi ==> a == v)
    &&& (v <= lo ==> a <= lo)
    &&& (v >= hi ==> a >= hi)
}

/// What holds part-way through the scan of a node searched with the window
/// (`alpha0`, `beta0`): `accm` is the best so far by minimax, `acca` by
/// alpha-beta, and (`lo`, `hi`) is the window alpha-beta has narrowed to.
pub open spec fn scan_window(
    player: Player,
    accm: Option<(MoveView, int)>,
    acca: Option<(MoveView, int)>,
    alpha0: int,
    beta0: int,
    lo: int,
    hi: int,
) -> bool {
    &&& accm.is_none() == acca.is_none()
    &&& match player {
        Player::White => {
            &&& hi == beta0
            &&& match (accm, acca) {
                (Some((_, m)), Some((_, s))) => {
                    &&& lo == (if s > alpha0 {
                        s
                    } else {
                        alpha0
                    })
                    &&& (m > alpha0 ==> s == m)
                    &&& (m <= alpha0 ==> s <= alpha0)
                },
                _ => lo == alpha0,
            }
        },
        Player::Black => {
            &&& lo == alpha0
            &&& match (accm, acca) {
                (Some((_, m)), Some((_, s))) => {
                    &&& hi == (if s < beta0 {
                        s
                    } else {
                        beta0
                    })
                    &&& (m < beta0 ==> s == m)
                    &&& (m >= beta0 ==> s >= beta0)
                },
                _ => hi == beta0,
            }
        },
    }
}

/// Scanning further never makes the best minimax score worse.
proof fn lemma_scan_keeps_best(
    ms: Seq<MoveView>,
    i: int,
    player: Player,
    depth: nat,
    acc: Option<(MoveView, int)>,
)
    requires
        acc.is_some(),
    ensures
        minimax_scan(ms, i, player, depth, acc).is_some(),
        ({
            let r = minimax_scan(ms, i, player, depth, acc).unwrap().1;
            let s = acc.unwrap().1;
            r == s || better(player, r, s)
        }),
    decreases ms.len() - i,
{
    if !(depth == 0 || i < 0 || i >= ms.len()) {
        let s = minimax_value(ms[i].board, player.opponent(), (depth - 1) as nat);
        lemma_scan_keeps_best(ms, i + 1, player, depth, keep_best(acc, ms[i], s, player));
    }
}

proof fn lemma_node_window(g: Grid, player: Player, lo: int, hi: int, depth: nat)
    requires
        lo < hi,
    ensures
        window_holds(minimax_value(g, player, depth), alphabeta_value(g, player, lo, hi, depth), lo, hi),
    decreases depth, 1int, 0int,
{
    if depth > 0 {
        let ms = legal_moves(g, player);
        lemma_scan_window(ms, 0, player, depth, None, None, lo, hi, lo, hi);
    }
}

proof fn lemma_scan_window(
    ms: Seq<MoveView>,
    i: int,
    player: Player,
    depth: nat,
    accm: Option<(MoveView, int)>,
    acca: Option<(MoveView, int)>,
    alpha0: int,
    beta0: int,
    lo: int,
    hi: int,
)
    requires
        0 <= i <= ms.len(),
        depth > 0,
        lo < hi,
        alpha0 < beta0,
        scan_window(player, accm, acca, alpha0, beta0, lo, hi),
    ensures
        ({
            let rm = minimax_scan(ms, i, player, depth, accm);
            let ra = alphabeta_scan(ms, i, player, lo, hi, depth, acca);
            &&& rm.is_none() == ra.is_none()
            &&& rm.is_some() ==> window_holds(rm.unwrap().1, ra.unwrap().1, alpha0, beta0)
        }),
    decreases depth, 0int, ms.len() - i,
{
    if i < ms.len() {
        let c = ms[i].board;
        let opp = player.opponent();
        let v = minimax_value(c, opp, (depth - 1) as nat);
        let a = alphabeta_value(c, opp, lo, hi, (depth - 1) as nat);
        lemma_node_window(c, opp, lo, hi, (depth - 1) as nat);
        let accm2 = keep_best(accm, ms[i], v, player);
        let acca2 = keep_best(acca, ms[i], a, player);
        let (lo2, hi2) = if acca2 == acca {
            (lo, hi)
        } else {
            narrowed(player, lo, hi, a)
        };
        if hi2 <= lo2 {
            lemma_scan_keeps_best(ms, i + 1, player, depth, accm2);
        } else {
            lemma_scan_window(ms, i + 1, player, depth, accm2, acca2, alpha0, beta0, lo2, hi2);
        }
    }
}

/// The minimax score of every position lies within [-320, 320].
proof fn lemma_minimax_bounds(g: Grid, player: Player, depth: nat)
    ensures
        -320 <= minimax_value(g, player, depth) <= 320,
    decreases depth, 1int, 0int,
{
    lemma_evaluation_bounds(g);
    if depth > 0 {
        lemma_minimax_scan_bounds(legal_moves(g, player), 0, player, depth, None);
    }
}

proof fn lemma_minimax_scan_bounds(
    ms: Seq<MoveView>,
    i: int,
    player: Player,
    depth: nat,
    acc: Option<(MoveView, int)>,
)
    requires
        acc.is_some() ==> -320 <= acc.unwrap().1 <= 320,
    ensures
        ({
            let r = minimax_scan(ms, i, player, depth, acc);
            r.is_some() ==> -320 <= r.unwrap().1 <= 320
        }),
    decreases depth, 0int, ms.len() - i,
{
    if !(depth == 0 || i < 0 || i >= ms.len()) {
        let s = minimax_value(ms[i].board, player.opponent(), (depth - 1) as nat);
        lemma_minimax_bounds(ms[i].board, player.opponent(), (depth - 1) as nat);
        lemma_minimax_scan_bounds(ms, i + 1, player, depth, keep_best(acc, ms[i], s, player));
    }
}

/// Alpha-beta pruning does not change the result: from the widest window,
/// `alphabeta` returns a score exactly when `minimax` does, and the same
/// score, for every position, side to move and depth.
pub proof fn lemma_alphabeta_agrees_with_minimax(g: Grid, player: Player, depth: nat)
    ensures
        alphabeta_solution(g, player, i32::MIN as int, i32::MAX as int, depth).score()
            == minimax_solution(g, player, depth).score(),
{
    if depth > 0 {
        let ms = legal_moves(g, player);
        let lo = i32::MIN as int;
        let hi = i32::MAX as int;
        lemma_scan_window(ms, 0, player, depth, None, None, lo, hi, lo, hi);
        lemma_minimax_scan_bounds(ms, 0, player, depth, None);
    }
}

/// Determinism: the results of the engine depend on the board, the side
/// and the depth alone, so equal inputs give equal moves, scores and
/// search outcomes.
pub proof fn lemma_deterministic(g1: Grid, g2: Grid, player: Player, depth: nat)
    requires
        g1 == g2,
    ensures
        legal_moves(g1, player) == legal_moves(g2, player),
        can_capture(g1, player) == can_capture(g2, player),
        can_move(g1, player) == can_move(g2, player),
        evaluation(g1) == evaluation(g2),
        minimax_solution(g1, player, depth) == minimax_solution(g2, player, depth),
        alphabeta_solution(g1, player, i32::MIN as int, i32::MAX as int, depth)
            == alphabeta_solution(g2, player, i32::MIN as int, i32::MAX as int, depth),
{
}

/// The static score in terms of legal moves: -200 when White has no legal
/// move, +200 when White has one and Black has none, otherwise the signed
/// material (men 1, queens 5, White positive).
pub proof fn lemma_evaluation_cases(g: Grid)
    requires
        well_shaped(g),
    ensures
        legal_moves(g, Player::White).len() == 0 ==> evaluation(g) == -200,
        legal_moves(g, Player::White).len() > 0 && legal_moves(g, Player::Black).len() == 0
            ==> evaluation(g) == 200,
        legal_moves(g, Player::White).len() > 0 && legal_moves(g, Player::Black).len() > 0
            ==> evaluation(g) == material(g),
{
    lemma_can_move_iff_legal_moves(g, Player::White);
    lemma_can_move_iff_legal_moves(g, Player::Black);
}

proof fn lemma_minimax_scan_picks(
    ms: Seq<MoveView>,
    i: int,
    player: Player,
    depth: nat,
    acc: Option<(MoveView, int)>,
)
    requires
        0 <= i,
        depth > 0,
        acc.is_some() ==> ms.contains(acc.unwrap().0) && acc.unwrap().1 == minimax_value(
            acc.unwrap().0.board,
            player.opponent(),
            (depth - 1) as nat,
        ),
    ensures
        ({
            let r = minimax_scan(ms, i, player, depth, acc);
            r.is_some() ==> ms.contains(r.unwrap().0) && r.unwrap().1 == minimax_value(
                r.unwrap().0.board,
                player.opponent(),
                (depth - 1) as nat,
            )
        }),
    decreases ms.len() - i,
{
    if i < ms.len() {
        let s = minimax_value(ms[i].board, player.opponent(), (depth - 1) as nat);
        assert(ms.contains(ms[i]));
        lemma_minimax_scan_picks(ms, i + 1, player, depth, keep_best(acc, ms[i], s, player));
    }
}

/// A move chosen by `minimax` is one of the legal moves of the side to
/// move, and its score is the minimax score, one ply shallower, of the
/// position it leads to; at depth one, that is the static score of the
/// resulting board.
pub proof fn lemma_minimax_move_is_legal(g: Grid, player: Player, depth: nat)
    ensures
        match minimax_solution(g, player, depth) {
            SolutionView::Move(m, s) => {
                &&& legal_moves(g, player).contains(m)
                &&& s == minimax_value(m.board, player.opponent(), (depth - 1) as nat)
                &&& depth == 1 ==> s == evaluation(m.board)
            },
            SolutionView::Score(s) => depth == 0 && s == evaluation(g),
            SolutionView::NoMoves => depth > 0 && legal_moves(g, player).len() == 0,
        },
{
    if depth > 0 {
        let ms = legal_moves(g, player);
        lemma_minimax_scan_picks(ms, 0, player, depth, None);
        if ms.len() > 0 {
            let s = minimax_value(ms[0].board, player.opponent(), (depth - 1) as nat);
            lemma_scan_keeps_best(ms, 1, player, depth, keep_best(None, ms[0], s, player));
        }
    }
}

} // verus!
