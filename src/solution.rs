use vstd::prelude::*;

use crate::board::{Board, Grid};
use crate::evaluate::{evaluate, evaluation};
use crate::generator::{available_moves, legal_moves};
use crate::moves::{views, Move, MoveView};
use crate::player::Player;
use crate::search_laws::lemma_alphabeta_agrees_with_minimax;

verus! {

/// The outcome of a search: no legal move at the root, a bare score (depth
/// zero), or the chosen move with its score.
#[derive(Debug, Clone, Copy, PartialEq, Eq)]
pub enum Solution {
    NoMoves,
    Score(i32),
    Move(Move, i32),
}

/// A search outcome as a mathematical value.
pub enum SolutionView {
    NoMoves,
    Score(int),
    Move(MoveView, int),
}

impl View for Solution {
    type V = SolutionView;

    open spec fn view(&self) -> SolutionView {
        match self {
            Solution::NoMoves => SolutionView::NoMoves,
            Solution::Score(s) => SolutionView::Score(*s as int),
            Solution::Move(m, s) => SolutionView::Move(m@, *s as int),
        }
    }
}

impl SolutionView {
    pub open spec fn score(self) -> Option<int> {
        match self {
            SolutionView::NoMoves => None,
            SolutionView::Score(s) => Some(s),
            SolutionView::Move(_, s) => Some(s),
        }
    }
}

impl Solution {
    /// The score, if the search produced one.
    pub fn score(&self) -> (r: Option<i32>)
        ensures
            r.is_some() == self@.score().is_some(),
            r.is_some() ==> r.unwrap() as int == self@.score().unwrap(),
    {
        match self {
            Solution::NoMoves => None,
            Solution::Score(score) => Some(*score),
            Solution::Move(_, score) => Some(*score),
        }
    }

    /// A move with its score, a bare score, or no solution when there is no
    /// score.
    pub fn new(score: Option<i32>, mv: Option<Move>) -> (r: Solution)
        ensures
            r == (match (score, mv) {
                (Some(s), Some(m)) => Solution::Move(m, s),
                (Some(s), None) => Solution::Score(s),
                _ => Solution::NoMoves,
            }),
    {
        match (score, mv) {
            (Some(score), Some(mv)) => Solution::Move(mv, score),
            (Some(score), None) => Solution::Score(score),
            _ => Solution::NoMoves,
        }
    }
}

/// Score `a` is strictly better than `b` for `player`: higher for White,
/// lower for Black.
pub open spec fn better(player: Player, a: int, b: int) -> bool {
    match player {
        Player::White => a > b,
        Player::Black => a < b,
    }
}

/// The best move so far with its score, after looking at one more move
/// scored `s`; the earlier move is kept on equal scores.
pub open spec fn keep_best(acc: Option<(MoveView, int)>, m: MoveView, s: int, player: Player) -> Option<
    (MoveView, int),
> {
    match acc {
        None => Some((m, s)),
        Some((_, s0)) => if better(player, s, s0) {
            Some((m, s))
        } else {
            acc
        },
    }
}

/// The minimax score of a position with `player` to move: its static score
/// at depth zero or when `player` has no legal move, else the best child
/// score for `player`.
pub open spec fn minimax_value(g: Grid, player: Player, depth: nat) -> int
    decreases depth, 1int, 0int,
{
    if depth == 0 {
        evaluation(g)
    } else {
        match minimax_scan(legal_moves(g, player), 0, player, depth, None) {
            Some((_, s)) => s,
            None => evaluation(g),
        }
    }
}

/// The moves of `ms` from index `i` on, scored one after another by the
/// minimax score of the position they lead to, folded into `acc`.
pub open spec fn minimax_scan(
    ms: Seq<MoveView>,
    i: int,
    player: Player,
    depth: nat,
    acc: Option<(MoveView, int)>,
) -> Option<(MoveView, int)>
    decreases depth, 0int, ms.len() - i,
{
    if depth == 0 || i < 0 || i >= ms.len() {
        acc
    } else {
        let s = minimax_value(ms[i].board, player.opponent(), (depth - 1) as nat);
        minimax_scan(ms, i + 1, player, depth, keep_best(acc, ms[i], s, player))
    }
}

/// What `minimax` returns.
pub open spec fn minimax_solution(g: Grid, player: Player, depth: nat) -> SolutionView {
    if depth == 0 {
        SolutionView::Score(evaluation(g))
    } else {
        match minimax_scan(legal_moves(g, player), 0, player, depth, None) {
            Some((m, s)) => SolutionView::Move(m, s),
            None => SolutionView::NoMoves,
        }
    }
}

/// The search window after a new best score `s`: White raises `alpha`,
/// Black lowers `beta`.
pub open spec fn narrowed(player: Player, alpha: int, beta: int, s: int) -> (int, int) {
    match player {
        Player::White => (if s > alpha {
            s
        } else {
            alpha
        }, beta),
        Player::Black => (alpha, if s < beta {
            s
        } else {
            beta
        }),
    }
}

/// The alpha-beta score of a position: as `minimax_value`, but the moves of
/// each node are scanned with the window (`alpha`, `beta`), and the scan
/// stops once `alpha >= beta`.
pub open spec fn alphabeta_value(g: Grid, player: Player, alpha: int, beta: int, depth: nat) -> int
    decreases depth, 1int, 0int,
{
    if depth == 0 {
        evaluation(g)
    } else {
        match alphabeta_scan(legal_moves(g, player), 0, player, alpha, beta, depth, None) {
            Some((_, s)) => s,
            None => evaluation(g),
        }
    }
}

/// The alpha-beta scan of the moves of `ms` from index `i` on.
pub open spec fn alphabeta_scan(
    ms: Seq<MoveView>,
    i: int,
    player: Player,
    alpha: int,
    beta: int,
    depth: nat,
    acc: Option<(MoveView, int)>,
) -> Option<(MoveView, int)>
    decreases depth, 0int, ms.len() - i,
{
    if depth == 0 || i < 0 || i >= ms.len() {
        acc
    } else {
        let s = alphabeta_value(ms[i].board, player.opponent(), alpha, beta, (depth - 1) as nat);
        let next = keep_best(acc, ms[i], s, player);
        let (a, b) = if next == acc {
            (alpha, beta)
        } else {
            narrowed(player, alpha, beta, s)
        };
        if b <= a {
            next
        } else {
            alphabeta_scan(ms, i + 1, player, a, b, depth, next)
        }
    }
}

/// What the alpha-beta search returns for the window (`alpha`, `beta`).
pub open spec fn alphabeta_solution(g: Grid, player: Player, alpha: int, beta: int, depth: nat) -> SolutionView {
    if depth == 0 {
        SolutionView::Score(evaluation(g))
    } else {
        match alphabeta_scan(legal_moves(g, player), 0, player, alpha, beta, depth, None) {
            Some((m, s)) => SolutionView::Move(m, s),
            None => SolutionView::NoMoves,
        }
    }
}

pub open spec fn acc_view(score: Option<i32>, mv: Option<Move>) -> Option<(MoveView, int)> {
    match (score, mv) {
        (Some(s), Some(m)) => Some((m@, s as int)),
        _ => None,
    }
}

/// The score a parent takes from a child search: the child's score, or the
/// static score of the child position when the child has no move.
proof fn lemma_minimax_child(g: Grid, player: Player, depth: nat)
    ensures
        minimax_value(g, player, depth) == match minimax_solution(g, player, depth).score() {
            Some(s) => s,
            None => evaluation(g),
        },
{
}

proof fn lemma_alphabeta_child(g: Grid, player: Player, alpha: int, beta: int, depth: nat)
    ensures
        alphabeta_value(g, player, alpha, beta, depth) == match alphabeta_solution(
            g,
            player,
            alpha,
            beta,
            depth,
        ).score() {
            Some(s) => s,
            None => evaluation(g),
        },
{
}

/// Minimax search to `depth` plies with `player` to move. At depth zero the
/// static score; otherwise every legal move is scored by the search one ply
/// shallower for the other side (the child's static score when it has no
/// move), White keeping the highest and Black the lowest score, the first
/// such move winning ties. `NoMoves` when `player` has no legal move.
pub fn minimax(board: &Board, player: Player, depth: u8) -> (r: Solution)
    ensures
        r@ == minimax_solution(board@, player, depth as nat),
    decreases depth, 1int,
{
    if depth == 0 {
        return Solution::Score(evaluate(board));
    }
    best_move(board, player, depth)
}

fn best_move(board: &Board, player: Player, depth: u8) -> (r: Solution)
    requires
        depth > 0,
    ensures
        r@ == minimax_solution(board@, player, depth as nat),
    decreases depth, 0int,
{
    let moves = available_moves(board, player);
    let ghost ms = views(moves@);
    let mut score: Option<i32> = None;
    let mut res: Option<Move> = None;
    let mut i: usize = 0;
    while i < moves.len()
        invariant
            ms == views(moves@),
            ms == legal_moves(board@, player),
            i <= ms.len(),
            depth > 0,
            score.is_some() == res.is_some(),
            minimax_scan(ms, i as int, player, depth as nat, acc_view(score, res))
                == minimax_scan(ms, 0, player, depth as nat, None),
        decreases ms.len() - i,
    {
        let mv = moves[i];
        let next = minimax(&mv.next_board, player.next(), depth - 1);
        let current_score = match next.score() {
            Some(s) => s,
            None => evaluate(&mv.next_board),
        };
        proof {
            lemma_minimax_child(mv.next_board@, player.opponent(), (depth - 1) as nat);
            assert(ms[i as int] == mv@);
        }
        match score {
            None => {
                score = Some(current_score);
                res = Some(mv);
            },
            Some(s) => {
                let improves = match player {
                    Player::White => current_score > s,
                    Player::Black => current_score < s,
                };
                if improves {
                    score = Some(current_score);
                    res = Some(mv);
                }
            },
        }
        i = i + 1;
    }
    Solution::new(score, res)
}

/// Alpha-beta search to `depth` plies with `player` to move, starting from
/// the widest window. It returns the same score as `minimax` (see
/// `lemma_alphabeta_agrees_with_minimax`) while skipping moves that cannot
/// change it.
pub fn alphabeta(board: &Board, player: Player, depth: u8) -> (r: Solution)
    ensures
        r@ == alphabeta_solution(board@, player, i32::MIN as int, i32::MAX as int, depth as nat),
        r@.score() == minimax_solution(board@, player, depth as nat).score(),
{
    proof {
        lemma_alphabeta_agrees_with_minimax(board@, player, depth as nat);
    }
    alphabeta_window(board, player, i32::MIN, i32::MAX, depth)
}

/// Alpha-beta search with the window (`alpha`, `beta`).
pub fn alphabeta_window(board: &Board, player: Player, alpha: i32, beta: i32, depth: u8) -> (r:
    Solution)
    ensures
        r@ == alphabeta_solution(board@, player, alpha as int, beta as int, depth as nat),
    decreases depth,
{
    if depth == 0 {
        return Solution::Score(evaluate(board));
    }
    let moves = available_moves(board, player);
    let ghost ms = views(moves@);
    let mut alpha = alpha;
    let mut beta = beta;
    let ghost a0 = alpha as int;
    let ghost b0 = beta as int;
    let mut score: Option<i32> = None;
    let mut res: Option<Move> = None;
    let mut i: usize = 0;
    while i < moves.len()
        invariant_except_break
            alphabeta_scan(ms, i as int, player, alpha as int, beta as int, depth as nat, acc_view(score, res))
                == alphabeta_scan(ms, 0, player, a0, b0, depth as nat, None),
        invariant
            ms == views(moves@),
            ms == legal_moves(board@, player),
            i <= ms.len(),
            depth > 0,
            score.is_some() == res.is_some(),
        ensures
            acc_view(score, res) == alphabeta_scan(ms, 0, player, a0, b0, depth as nat, None),
        decreases ms.len() - i,
    {
        let mv = moves[i];
        let next = alphabeta_window(&mv.next_board, player.next(), alpha, beta, depth - 1);
        let current_score = match next.score() {
            Some(s) => s,
            None => evaluate(&mv.next_board),
        };
        proof {
            lemma_alphabeta_child(mv.next_board@, player.opponent(), alpha as int, beta as int, (depth - 1) as nat);
            assert(ms[i as int] == mv@);
        }
        let improves = match score {
            None => true,
            Some(s) => match player {
                Player::White => current_score > s,
                Player::Black => current_score < s,
            },
        };
        if improves {
            score = Some(current_score);
            res = Some(mv);
            match player {
                Player::White => {
                    if current_score > alpha {
                        alpha = current_score;
                    }
                },
                Player::Black => {
                    if current_score < beta {
                        beta = current_score;
                    }
                },
            }
        }
        i = i + 1;
        if beta <= alpha {
            break;
        }
    }
    Solution::new(score, res)
}

} // verus!
