use checkers::{initial_board, promote, Board, Cell, Coord, OutOfBounds, Piece, Player, Position, Row, Sizes};

fn pos(x: u8, y: u8) -> Position {
    Position::from_indices(x, y).unwrap()
}

fn empty_board() -> Board {
    Board([Row([Cell::Black; 8]); 8])
}

#[test]
fn initial_board_counts() {
    let board = initial_board();
    let mut white_men = 0;
    let mut black_men = 0;
    let mut queens = 0;
    let mut empty = 0;
    for y in 0..8u8 {
        for x in 0..8u8 {
            match board.cell_at(pos(x, y)) {
                Cell::WhitePiece => white_men += 1,
                Cell::BlackPiece => black_men += 1,
                Cell::WhiteQueen | Cell::BlackQueen => queens += 1,
                Cell::White | Cell::Black => empty += 1,
            }
        }
    }
    assert_eq!(white_men, 12);
    assert_eq!(black_men, 12);
    assert_eq!(queens, 0);
    assert_eq!(empty, 40);
}

#[test]
fn initial_board_layout() {
    let board = initial_board();
    assert_eq!(board.cell_at(pos(0, 0)), Cell::White);
    assert_eq!(board.cell_at(pos(1, 0)), Cell::BlackPiece);
    assert_eq!(board.cell_at(pos(0, 5)), Cell::WhitePiece);
    assert_eq!(board.cell_at(pos(0, 3)), Cell::Black);
    assert_eq!(board.cell_at(pos(1, 4)), Cell::Black);
    assert_eq!(board.cell_at(pos(1, 7)), Cell::White);
    assert_eq!(board.cell_at(pos(0, 7)), Cell::WhitePiece);
    assert_eq!(Board::default(), board);
}

#[test]
fn coord_construction_is_checked() {
    assert_eq!(Coord::new(7).unwrap().as_u8(), 7);
    assert_eq!(Coord::new(8), Err(OutOfBounds { value: 8 }));
    assert_eq!(Coord::new(255), Err(OutOfBounds { value: 255 }));
    assert_eq!(Position::from_indices(3, 9), Err(OutOfBounds { value: 9 }));
    assert_eq!(Position::from_indices(10, 9), Err(OutOfBounds { value: 10 }));
    let p = Position::from_indices(2, 6).unwrap();
    assert_eq!(p.x.as_usize(), 2);
    assert_eq!(p.y.as_usize(), 6);
    assert_eq!(Position::new(Coord::new(2).unwrap(), Coord::new(6).unwrap()), p);
}

#[test]
fn coord_forward_and_order() {
    assert_eq!(Coord::new(3).unwrap().forward(), Some(Coord::new(4).unwrap()));
    assert_eq!(Coord::new(7).unwrap().forward(), None);
    let all = Coord::in_order();
    assert_eq!(all.len(), 8);
    for (i, c) in all.iter().enumerate() {
        assert_eq!(c.as_usize(), i);
    }
    assert_eq!(Coord::new_unchecked(5).as_u8(), 5);
}

#[test]
fn cell_queries() {
    assert!(!Cell::White.is_piece());
    assert!(!Cell::Black.is_piece());
    assert!(Cell::WhiteQueen.is_piece());
    assert_eq!(Cell::BlackPiece.player_affiliation(), Some(Player::Black));
    assert_eq!(Cell::WhiteQueen.player_affiliation(), Some(Player::White));
    assert_eq!(Cell::Black.player_affiliation(), None);
    assert_eq!(Cell::BlackQueen.into_piece(), Some(Piece::BlackQueen));
    assert_eq!(Cell::WhitePiece.into_piece(), Some(Piece::White));
    assert_eq!(Cell::White.into_piece(), None);
    assert!(Cell::BlackPiece.is_enemy_to(Player::White));
    assert!(!Cell::BlackPiece.is_enemy_to(Player::Black));
    assert!(!Cell::Black.is_enemy_to(Player::White));
    assert_eq!(Cell::from_piece(Piece::WhiteQueen), Cell::WhiteQueen);
    assert_eq!(Cell::default(), Cell::Black);
    assert_eq!(Cell::White.color(), Player::White);
    assert_eq!(Cell::BlackQueen.color(), Player::Black);
}

#[test]
fn cell_codes_round_trip() {
    let all = [
        Cell::White,
        Cell::Black,
        Cell::WhitePiece,
        Cell::BlackPiece,
        Cell::WhiteQueen,
        Cell::BlackQueen,
    ];
    for c in all {
        assert_eq!(Cell::from_bits(c.bits()), Some(c));
        assert_eq!(c.piece_bit(), (c.bits() >> 2) & 1);
        assert_eq!(c.queen_bit(), (c.bits() >> 1) & 1);
        assert_eq!(c.color_bit(), c.bits() & 1);
    }
    assert_eq!(Cell::WhiteQueen.bits(), 0b110);
    assert_eq!(Cell::from_bits(0b010), None);
    assert_eq!(Cell::from_bits(0b011), None);
    assert_eq!(Cell::from_bits(8), None);
    assert_eq!(Cell::from_bits(0b101), Some(Cell::BlackPiece));
}

#[test]
fn cell_values() {
    assert_eq!(Cell::WhitePiece.value(), 1);
    assert_eq!(Cell::WhiteQueen.value(), 5);
    assert_eq!(Cell::BlackPiece.value(), -1);
    assert_eq!(Cell::BlackQueen.value(), -5);
    assert_eq!(Cell::Black.value(), 0);
    assert_eq!(Cell::White.value(), 0);
}

#[test]
fn player_and_piece() {
    assert_eq!(Player::White.next(), Player::Black);
    assert_eq!(Player::Black.next(), Player::White);
    assert!(Player::White.is_enemy_to(Player::Black));
    assert!(!Player::White.is_enemy_to(Player::White));
    assert!(Player::Black.is_enemy(Player::White));
    assert_eq!(Piece::BlackQueen.player_affiliation(), Player::Black);
    assert_eq!(Piece::White.player_affiliation(), Player::White);
    assert!(Piece::WhiteQueen.is_queen());
    assert!(!Piece::Black.is_queen());
}

#[test]
fn promotion_on_far_row() {
    let y0 = Coord::new(0).unwrap();
    let y7 = Coord::new(7).unwrap();
    let y4 = Coord::new(4).unwrap();
    assert_eq!(promote(y0, Cell::WhitePiece), Cell::WhiteQueen);
    assert_eq!(promote(y7, Cell::BlackPiece), Cell::BlackQueen);
    assert_eq!(promote(y7, Cell::WhitePiece), Cell::WhitePiece);
    assert_eq!(promote(y0, Cell::BlackPiece), Cell::BlackPiece);
    assert_eq!(promote(y4, Cell::WhitePiece), Cell::WhitePiece);
    assert_eq!(promote(y0, Cell::WhiteQueen), Cell::WhiteQueen);
}

#[test]
fn move_cell_promotes_white_man() {
    let mut board = empty_board();
    board.replace(pos(2, 1), Cell::WhitePiece);
    board.move_cell(pos(2, 1), pos(1, 0));
    assert_eq!(board.cell_at(pos(1, 0)), Cell::WhiteQueen);
    assert_eq!(board.cell_at(pos(2, 1)), Cell::Black);
}

#[test]
fn move_cell_promotes_black_man() {
    let mut board = empty_board();
    board.replace(pos(4, 6), Cell::BlackPiece);
    board.move_cell(pos(4, 6), pos(5, 7));
    assert_eq!(board.cell_at(pos(5, 7)), Cell::BlackQueen);
}

#[test]
fn move_cell_keeps_rank_elsewhere() {
    let mut board = empty_board();
    board.replace(pos(2, 5), Cell::WhitePiece);
    board.move_cell(pos(2, 5), pos(3, 4));
    assert_eq!(board.cell_at(pos(3, 4)), Cell::WhitePiece);
    board.replace(pos(6, 1), Cell::BlackQueen);
    board.move_cell(pos(6, 1), pos(7, 0));
    assert_eq!(board.cell_at(pos(7, 0)), Cell::BlackQueen);
}

#[test]
fn board_replace_and_remove() {
    let mut board = initial_board();
    assert!(board.is_occupied(pos(1, 0)));
    board.remove(pos(1, 0));
    assert!(!board.is_occupied(pos(1, 0)));
    assert_eq!(*board.cell_ref(pos(1, 0)), Cell::Black);
    board.replace(pos(3, 3), Cell::BlackQueen);
    assert_eq!(board.cell_at(pos(3, 3)), Cell::BlackQueen);
    assert_eq!(board.cell_at(pos(2, 3)), Cell::Black);
}

#[test]
fn row_replace_and_remove() {
    let mut row = Row([Cell::White; 8]);
    row.replace(Coord::new(3).unwrap(), Cell::WhitePiece);
    assert_eq!(row.cell_at(Coord::new(3).unwrap()), Cell::WhitePiece);
    assert_eq!(row.cell_at(Coord::new(2).unwrap()), Cell::White);
    row.remove(Coord::new(3).unwrap());
    assert_eq!(row.cell_at(Coord::new(3).unwrap()), Cell::Black);
}

#[test]
fn moved_board_is_independent_copy() {
    let board = initial_board();
    let mut copy = board;
    copy.move_cell(pos(0, 5), pos(1, 4));
    assert_eq!(board.cell_at(pos(0, 5)), Cell::WhitePiece);
    assert_eq!(copy.cell_at(pos(1, 4)), Cell::WhitePiece);
    assert_ne!(board, copy);
}

#[test]
fn sizes_are_positive() {
    let s = Sizes::new();
    assert_eq!(s.cell, std::mem::size_of::<Cell>());
    assert_eq!(s.row, 8 * s.cell);
    assert_eq!(s.board, 8 * s.row);
}
