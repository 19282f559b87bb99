use checkers::generator::player_positions;
use checkers::moves::{chain_eat_moves, directions, eat_handler, eat_moves, move_handler, moves, offset_position, Direction2D};
use checkers::{
    alphabeta, available_moves, can_eat, evaluate, has_moves, initial_board, minimax, moves_for, Board, Cell,
    Direction, Evaluate, Move, Piece, Player, Position, Row, Solution,
};

fn pos(x: u8, y: u8) -> Position {
    Position::from_indices(x, y).unwrap()
}

fn empty_board() -> Board {
    Board([Row([Cell::Black; 8]); 8])
}

fn board_with(cells: &[(u8, u8, Cell)]) -> Board {
    let mut board = empty_board();
    for &(x, y, c) in cells {
        board.replace(pos(x, y), c);
    }
    board
}

fn ends(ms: &[Move]) -> Vec<((usize, usize), (usize, usize))> {
    ms.iter()
        .map(|m| ((m.from.x.as_usize(), m.from.y.as_usize()), (m.to.x.as_usize(), m.to.y.as_usize())))
        .collect()
}

fn score_of(s: &Solution) -> Option<i32> {
    s.score()
}

#[test]
fn opening_moves_of_white() {
    let board = initial_board();
    let ms = available_moves(&board, Player::White);
    assert_eq!(
        ends(&ms),
        vec![
            ((0, 5), (1, 4)),
            ((2, 5), (1, 4)),
            ((2, 5), (3, 4)),
            ((4, 5), (3, 4)),
            ((4, 5), (5, 4)),
            ((6, 5), (5, 4)),
            ((6, 5), (7, 4)),
        ]
    );
    for m in &ms {
        assert_eq!(m.next_board.cell_at(m.to), Cell::WhitePiece);
        assert_eq!(m.next_board.cell_at(m.from), Cell::Black);
    }
    assert!(can_eat(&board, Player::White).is_empty());
}

#[test]
fn opening_moves_of_black() {
    let board = initial_board();
    let ms = available_moves(&board, Player::Black);
    assert_eq!(ms.len(), 7);
    for m in &ms {
        assert_eq!(m.from.y.as_usize(), 2);
        assert_eq!(m.to.y.as_usize(), 3);
    }
}

#[test]
fn minimax_depth_one_from_opening() {
    let board = initial_board();
    let opening = available_moves(&board, Player::White);
    match minimax(&board, Player::White, 1) {
        Solution::Move(m, score) => {
            assert!(opening.contains(&m));
            assert_eq!(score, evaluate(&m.next_board));
            assert_eq!(score, 0);
            assert_eq!(m, opening[0]);
        }
        other => panic!("unexpected {:?}", other),
    }
}

#[test]
fn depth_zero_is_static_score() {
    let board = initial_board();
    assert_eq!(minimax(&board, Player::White, 0), Solution::Score(0));
    assert_eq!(alphabeta(&board, Player::Black, 0), Solution::Score(0));
}

#[test]
fn moves_for_empty_square_is_none() {
    let board = initial_board();
    assert!(moves_for(&board, pos(0, 0)).is_none());
    assert!(moves_for(&board, pos(3, 4)).is_none());
    let some = moves_for(&board, pos(2, 5)).unwrap();
    assert_eq!(ends(&some), vec![((2, 5), (1, 4)), ((2, 5), (3, 4))]);
    assert_eq!(moves_for(&board, pos(1, 6)).unwrap().len(), 0);
}

#[test]
fn mandatory_capture_excludes_simple_moves() {
    let board = board_with(&[
        (3, 5, Cell::WhitePiece),
        (4, 4, Cell::BlackPiece),
        (0, 5, Cell::WhitePiece),
        (7, 0, Cell::BlackPiece),
    ]);
    let ms = available_moves(&board, Player::White);
    assert_eq!(ends(&ms), vec![((3, 5), (5, 3))]);
    assert_eq!(ms[0].next_board.cell_at(pos(4, 4)), Cell::Black);
    assert_eq!(ms[0].next_board.cell_at(pos(3, 5)), Cell::Black);
    assert_eq!(ms[0].next_board.cell_at(pos(5, 3)), Cell::WhitePiece);
    assert_eq!(can_eat(&board, Player::White), vec![pos(3, 5)]);
    assert_eq!(moves_for(&board, pos(0, 5)).unwrap().len(), 0);
    assert_eq!(ends(&moves_for(&board, pos(3, 5)).unwrap()), vec![((3, 5), (5, 3))]);
    assert_eq!(can_eat(&board, Player::Black), vec![pos(4, 4)]);
}

#[test]
fn capture_chain_branches_end_when_blocked() {
    let board = board_with(&[
        (2, 6, Cell::WhitePiece),
        (3, 5, Cell::BlackPiece),
        (5, 3, Cell::BlackPiece),
        (1, 5, Cell::BlackPiece),
    ]);
    let chains = chain_eat_moves(&board, pos(2, 6), Piece::White);
    assert_eq!(ends(&chains), vec![((2, 6), (0, 4)), ((2, 6), (6, 2))]);
    let long = &chains[1];
    assert_eq!(long.next_board.cell_at(pos(3, 5)), Cell::Black);
    assert_eq!(long.next_board.cell_at(pos(5, 3)), Cell::Black);
    assert_eq!(long.next_board.cell_at(pos(1, 5)), Cell::BlackPiece);
    assert_eq!(long.next_board.cell_at(pos(6, 2)), Cell::WhitePiece);
    for m in &chains {
        assert!(eat_moves(&m.next_board, m.to, Piece::White).is_empty());
    }
    assert_eq!(ends(&available_moves(&board, Player::White)), ends(&chains));
}

#[test]
fn no_capture_means_no_chain() {
    let board = board_with(&[(2, 6, Cell::WhitePiece)]);
    assert!(chain_eat_moves(&board, pos(2, 6), Piece::White).is_empty());
    assert!(eat_moves(&board, pos(2, 6), Piece::White).is_empty());
}

#[test]
fn capture_onto_far_row_promotes() {
    let board = board_with(&[(2, 2, Cell::WhitePiece), (1, 1, Cell::BlackPiece)]);
    let ms = available_moves(&board, Player::White);
    assert_eq!(ends(&ms), vec![((2, 2), (0, 0))]);
    assert_eq!(ms[0].next_board.cell_at(pos(0, 0)), Cell::WhiteQueen);
    assert_eq!(ms[0].next_board.cell_at(pos(1, 1)), Cell::Black);
}

#[test]
fn queen_moves_in_four_directions() {
    let board = board_with(&[(3, 3, Cell::WhiteQueen)]);
    let ms = moves(&board, pos(3, 3), Piece::WhiteQueen);
    assert_eq!(ends(&ms), vec![((3, 3), (2, 2)), ((3, 3), (4, 2)), ((3, 3), (2, 4)), ((3, 3), (4, 4))]);
    let board = board_with(&[(3, 3, Cell::BlackQueen)]);
    let ms = moves(&board, pos(3, 3), Piece::BlackQueen);
    assert_eq!(ends(&ms), vec![((3, 3), (2, 4)), ((3, 3), (4, 4)), ((3, 3), (2, 2)), ((3, 3), (4, 2))]);
}

#[test]
fn men_move_forward_only() {
    let board = board_with(&[(3, 3, Cell::BlackPiece)]);
    assert_eq!(ends(&moves(&board, pos(3, 3), Piece::Black)), vec![((3, 3), (2, 4)), ((3, 3), (4, 4))]);
    let board = board_with(&[(0, 3, Cell::WhitePiece)]);
    assert_eq!(ends(&moves(&board, pos(0, 3), Piece::White)), vec![((0, 3), (1, 2))]);
}

#[test]
fn queen_captures_backwards() {
    let board = board_with(&[(3, 3, Cell::WhiteQueen), (4, 4, Cell::BlackPiece)]);
    let ms = eat_moves(&board, pos(3, 3), Piece::WhiteQueen);
    assert_eq!(ends(&ms), vec![((3, 3), (5, 5))]);
    let board = board_with(&[(3, 3, Cell::WhitePiece), (4, 4, Cell::BlackPiece)]);
    assert!(eat_moves(&board, pos(3, 3), Piece::White).is_empty());
}

#[test]
fn handlers_and_offsets() {
    let board = board_with(&[(1, 1, Cell::WhitePiece), (0, 0, Cell::BlackPiece)]);
    let up_left = Direction2D { x: Direction::Neg, y: Direction::Neg };
    let down_right = Direction2D { x: Direction::Pos, y: Direction::Pos };
    assert_eq!(offset_position(pos(1, 1), up_left, 1), Some(pos(0, 0)));
    assert_eq!(offset_position(pos(1, 1), up_left, 2), None);
    assert_eq!(offset_position(pos(6, 6), down_right, 1), Some(pos(7, 7)));
    assert_eq!(offset_position(pos(6, 6), down_right, 2), None);
    assert!(move_handler(&board, pos(1, 1), Direction::Neg, Direction::Neg).is_none());
    let m = move_handler(&board, pos(1, 1), Direction::Pos, Direction::Neg).unwrap();
    assert_eq!(m.to, pos(2, 0));
    assert_eq!(m.next_board.cell_at(pos(2, 0)), Cell::WhiteQueen);
    assert!(eat_handler(&board, pos(1, 1), Piece::White, Direction::Neg, Direction::Neg).is_none());
    let board = board_with(&[(2, 2, Cell::WhitePiece), (3, 3, Cell::BlackPiece)]);
    let m = eat_handler(&board, pos(2, 2), Piece::Black, Direction::Pos, Direction::Pos);
    assert!(m.is_none());
    let m = eat_handler(&board, pos(2, 2), Piece::WhiteQueen, Direction::Pos, Direction::Pos).unwrap();
    assert_eq!(m.to, pos(4, 4));
}

#[test]
fn evaluate_material_sum() {
    let board = board_with(&[
        (3, 3, Cell::WhiteQueen),
        (5, 5, Cell::WhitePiece),
        (0, 1, Cell::BlackPiece),
        (6, 1, Cell::BlackPiece),
    ]);
    assert_eq!(evaluate(&board), 5 + 1 - 1 - 1);
    assert_eq!(board.evaluate(), 4);
    assert_eq!(evaluate(&initial_board()), 0);
    let board = board_with(&[(3, 3, Cell::BlackQueen), (5, 5, Cell::WhitePiece)]);
    assert_eq!(evaluate(&board), -4);
    assert_eq!(Row([Cell::WhiteQueen; 8]).evaluate(), 40);
    assert_eq!(Cell::BlackQueen.evaluate(), -5);
}

#[test]
fn evaluate_white_cannot_move() {
    let board = board_with(&[(0, 0, Cell::WhitePiece), (7, 0, Cell::BlackPiece)]);
    assert!(!has_moves(&board, Player::White));
    assert!(has_moves(&board, Player::Black));
    assert_eq!(evaluate(&board), -200);
    let board = board_with(&[(7, 0, Cell::BlackPiece)]);
    assert_eq!(evaluate(&board), -200);
}

#[test]
fn evaluate_black_cannot_move() {
    let board = board_with(&[(4, 4, Cell::WhitePiece)]);
    assert!(has_moves(&board, Player::White));
    assert!(!has_moves(&board, Player::Black));
    assert_eq!(evaluate(&board), 200);
    let board = board_with(&[(4, 4, Cell::WhitePiece), (0, 7, Cell::BlackPiece)]);
    assert_eq!(evaluate(&board), 200);
}

#[test]
fn empty_board_has_no_moves() {
    let board = empty_board();
    assert!(!has_moves(&board, Player::White));
    assert!(!has_moves(&board, Player::Black));
    assert!(available_moves(&board, Player::White).is_empty());
    assert_eq!(evaluate(&board), -200);
    assert_eq!(minimax(&board, Player::White, 2), Solution::NoMoves);
    assert_eq!(alphabeta(&board, Player::Black, 3), Solution::NoMoves);
}

#[test]
fn search_takes_winning_capture() {
    let board = board_with(&[(3, 5, Cell::WhitePiece), (4, 4, Cell::BlackPiece), (0, 7, Cell::WhitePiece)]);
    match minimax(&board, Player::White, 2) {
        Solution::Move(m, score) => {
            assert_eq!(m.from, pos(3, 5));
            assert_eq!(m.to, pos(5, 3));
            assert_eq!(score, 200);
        }
        other => panic!("unexpected {:?}", other),
    }
    assert_eq!(score_of(&alphabeta(&board, Player::White, 2)), Some(200));
}

#[test]
fn black_minimizes() {
    let board = board_with(&[(4, 4, Cell::BlackPiece), (3, 5, Cell::WhitePiece), (7, 0, Cell::BlackPiece)]);
    match minimax(&board, Player::Black, 1) {
        Solution::Move(m, score) => {
            assert_eq!(m.from, pos(4, 4));
            assert_eq!(m.to, pos(2, 6));
            assert_eq!(score, -200);
        }
        other => panic!("unexpected {:?}", other),
    }
}

#[test]
fn alphabeta_matches_minimax_from_opening() {
    let board = initial_board();
    for depth in 0..4u8 {
        for player in [Player::White, Player::Black] {
            let a = alphabeta(&board, player, depth);
            let m = minimax(&board, player, depth);
            assert_eq!(score_of(&a), score_of(&m));
        }
    }
}

#[test]
fn alphabeta_matches_minimax_in_middle_game() {
    let boards = [
        board_with(&[
            (2, 6, Cell::WhitePiece),
            (3, 5, Cell::BlackPiece),
            (5, 3, Cell::BlackPiece),
            (1, 5, Cell::BlackPiece),
            (6, 6, Cell::WhiteQueen),
            (4, 2, Cell::BlackQueen),
        ]),
        board_with(&[
            (1, 2, Cell::BlackPiece),
            (3, 2, Cell::BlackPiece),
            (2, 5, Cell::WhitePiece),
            (4, 5, Cell::WhitePiece),
            (6, 5, Cell::WhitePiece),
            (5, 2, Cell::BlackPiece),
        ]),
    ];
    for board in boards {
        for depth in 1..5u8 {
            for player in [Player::White, Player::Black] {
                let a = alphabeta(&board, player, depth);
                let m = minimax(&board, player, depth);
                assert_eq!(score_of(&a), score_of(&m));
            }
        }
    }
}

#[test]
fn search_is_deterministic() {
    let board = initial_board();
    assert_eq!(minimax(&board, Player::White, 2), minimax(&board, Player::White, 2));
    assert_eq!(alphabeta(&board, Player::Black, 3), alphabeta(&board, Player::Black, 3));
    assert_eq!(available_moves(&board, Player::White), available_moves(&board, Player::White));
    assert_eq!(evaluate(&board), evaluate(&board));
}

#[test]
fn solution_constructors() {
    let board = initial_board();
    let m = available_moves(&board, Player::White)[0];
    assert_eq!(Solution::new(Some(3), Some(m)), Solution::Move(m, 3));
    assert_eq!(Solution::new(Some(3), None), Solution::Score(3));
    assert_eq!(Solution::new(None, Some(m)), Solution::NoMoves);
    assert_eq!(Solution::Move(m, 7).score(), Some(7));
    assert_eq!(Solution::NoMoves.score(), None);
}

#[test]
fn rule_directions_by_owner_and_rank() {
    let up_left = Direction2D { x: Direction::Neg, y: Direction::Neg };
    let up_right = Direction2D { x: Direction::Pos, y: Direction::Neg };
    let down_left = Direction2D { x: Direction::Neg, y: Direction::Pos };
    let down_right = Direction2D { x: Direction::Pos, y: Direction::Pos };
    let board = board_with(&[(3, 3, Cell::WhitePiece), (5, 5, Cell::BlackQueen)]);
    assert_eq!(directions(&board, pos(3, 3), Piece::White), vec![up_left, up_right]);
    assert_eq!(
        directions(&board, pos(5, 5), Piece::BlackQueen),
        vec![down_left, down_right, up_left, up_right]
    );
    assert!(directions(&board, pos(0, 0), Piece::White).is_empty());
}

#[test]
fn pieces_in_row_major_order() {
    let board = board_with(&[(6, 1, Cell::WhitePiece), (2, 4, Cell::WhiteQueen), (1, 1, Cell::WhitePiece), (0, 0, Cell::BlackPiece)]);
    assert_eq!(
        player_positions(&board, Player::White),
        vec![(pos(1, 1), Piece::White), (pos(6, 1), Piece::White), (pos(2, 4), Piece::WhiteQueen)]
    );
    assert_eq!(player_positions(&board, Player::Black), vec![(pos(0, 0), Piece::Black)]);
    assert_eq!(player_positions(&initial_board(), Player::Black).len(), 12);
}

#[test]
fn cell_mut_writes_in_place() {
    let mut board = empty_board();
    *board.cell_mut(pos(4, 2)) = Cell::BlackQueen;
    assert_eq!(board.cell_at(pos(4, 2)), Cell::BlackQueen);
    assert_eq!(board.cell_at(pos(2, 4)), Cell::Black);
}
