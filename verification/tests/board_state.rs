use intermezzo::chess::Chess_Board;

fn fresh() -> Chess_Board {
    let mut board = Chess_Board::default();
    board.generate_distance();
    board
}

#[test]
fn default_is_the_starting_position() {
    let board = Chess_Board::default();
    let expected: [i8; 64] = [
        4, 2, 3, 5, 6, 3, 2, 4,
        1, 1, 1, 1, 1, 1, 1, 1,
        0, 0, 0, 0, 0, 0, 0, 0,
        0, 0, 0, 0, 0, 0, 0, 0,
        0, 0, 0, 0, 0, 0, 0, 0,
        0, 0, 0, 0, 0, 0, 0, 0,
        -1, -1, -1, -1, -1, -1, -1, -1,
        -4, -2, -3, -5, -6, -3, -2, -4,
    ];
    assert_eq!(board.board, expected);
    assert!(board.moves.is_empty());
    assert_eq!(board.details.rooks_have_moved, [false; 4]);
    assert_eq!(board.details.kings_have_moved, [false; 2]);
    assert_eq!(board.details.is_check, 0);
    assert_eq!(board.edge_counts, [[0usize; 8]; 64]);
}

#[test]
fn rows_and_columns() {
    assert_eq!(Chess_Board::get_row(0), 0);
    assert_eq!(Chess_Board::get_col(0), 0);
    assert_eq!(Chess_Board::get_row(7), 0);
    assert_eq!(Chess_Board::get_col(7), 7);
    assert_eq!(Chess_Board::get_row(8), 1);
    assert_eq!(Chess_Board::get_col(8), 0);
    assert_eq!(Chess_Board::get_row(27), 3);
    assert_eq!(Chess_Board::get_col(27), 3);
    assert_eq!(Chess_Board::get_row(63), 7);
    assert_eq!(Chess_Board::get_col(63), 7);
    for index in 0..64usize {
        assert_eq!(Chess_Board::get_row(index) * 8 + Chess_Board::get_col(index), index);
    }
}

#[test]
fn colors_match_by_sign() {
    assert!(Chess_Board::match_color(1, 6));
    assert!(Chess_Board::match_color(-4, -1));
    assert!(!Chess_Board::match_color(1, -1));
    assert!(!Chess_Board::match_color(-5, 2));
    assert!(!Chess_Board::match_color(0, 3));
    assert!(!Chess_Board::match_color(-3, 0));
    assert!(!Chess_Board::match_color(0, 0));
    assert!(Chess_Board::match_color(127, 127));
    assert!(Chess_Board::match_color(-128, -128));
    assert!(!Chess_Board::match_color(-128, 127));
}

#[test]
fn distance_table_exact_entries() {
    let board = fresh();
    assert_eq!(board.edge_counts[0], [0, 7, 0, 7, 0, 0, 7, 0]);
    assert_eq!(board.edge_counts[7], [0, 7, 7, 0, 0, 0, 0, 7]);
    assert_eq!(board.edge_counts[27], [3, 4, 3, 4, 3, 3, 4, 3]);
    assert_eq!(board.edge_counts[13], [1, 6, 5, 2, 1, 1, 2, 5]);
    assert_eq!(board.edge_counts[56], [7, 0, 0, 7, 0, 7, 0, 0]);
    assert_eq!(board.edge_counts[63], [7, 0, 7, 0, 7, 0, 0, 0]);
}

#[test]
fn distance_table_sums_on_every_square() {
    let board = fresh();
    for square in 0..64usize {
        let d = board.edge_counts[square];
        assert_eq!(d[0] + d[1], 7);
        assert_eq!(d[2] + d[3], 7);
        assert_eq!(d[0], square / 8);
        assert_eq!(d[2], square % 8);
        assert_eq!(d[4], d[0].min(d[2]));
        assert_eq!(d[5], d[0].min(d[3]));
        assert_eq!(d[6], d[1].min(d[3]));
        assert_eq!(d[7], d[1].min(d[2]));
    }
}

#[test]
fn generate_distance_keeps_the_rest() {
    let mut board = Chess_Board::default();
    board.move_piece(12, 28);
    board.details.is_check = 1;
    let cells = board.board;
    board.generate_distance();
    assert_eq!(board.board, cells);
    assert_eq!(board.moves.len(), 1);
    assert_eq!(board.details.is_check, 1);
}

#[test]
fn configure_replaces_the_cells_only() {
    let mut board = fresh();
    board.move_piece(8, 16);
    board.details.kings_have_moved[1] = true;
    let table = board.edge_counts;
    let mut layout = [0i8; 64];
    layout[35] = 5;
    layout[0] = -6;
    board.configure_board(layout);
    assert_eq!(board.board, layout);
    assert_eq!(board.edge_counts, table);
    assert_eq!(board.moves.len(), 1);
    assert_eq!(board.details.kings_have_moved, [false, true]);
}

#[test]
fn move_piece_relocates_and_records() {
    let mut board = fresh();
    board.move_piece(12, 28);
    assert_eq!(board.board[28], 1);
    assert_eq!(board.board[12], 0);
    assert_eq!(board.moves.len(), 1);
    let record = board.moves[0];
    assert_eq!(record.piece, 1);
    assert_eq!(record.origin, 12);
    assert_eq!(record.target, 28);
    assert_eq!(record.capture, 1);
    for square in 0..64usize {
        if square != 12 && square != 28 {
            assert_eq!(board.board[square], Chess_Board::default().board[square]);
        }
    }
}

#[test]
fn move_piece_overwrites_the_target() {
    let mut board = fresh();
    board.move_piece(0, 56);
    assert_eq!(board.board[56], 4);
    assert_eq!(board.board[0], 0);
    board.move_piece(59, 3);
    assert_eq!(board.board[3], -5);
    assert_eq!(board.board[59], 0);
    assert_eq!(board.moves.len(), 2);
    assert_eq!(board.moves[0].capture, 4);
    assert_eq!(board.moves[0].piece, 4);
    assert_eq!(board.moves[1].capture, -5);
    assert_eq!(board.moves[1].piece, -5);
    assert_eq!(board.moves[1].origin, 59);
    assert_eq!(board.moves[1].target, 3);
}

#[test]
fn move_piece_from_an_empty_square() {
    let mut board = fresh();
    board.move_piece(20, 8);
    assert_eq!(board.board[8], 0);
    assert_eq!(board.board[20], 0);
    assert_eq!(board.moves.len(), 1);
    assert_eq!(board.moves[0].piece, 0);
    assert_eq!(board.moves[0].capture, 0);
}

#[test]
fn move_piece_onto_its_own_square() {
    let mut board = fresh();
    board.move_piece(5, 5);
    assert_eq!(board.board[5], 0);
    assert_eq!(board.moves.len(), 1);
    assert_eq!(board.moves[0].piece, 0);
    assert_eq!(board.moves[0].capture, 3);
    assert_eq!(board.moves[0].origin, 5);
    assert_eq!(board.moves[0].target, 5);
}

#[test]
fn distance_table_is_checked() {
    let mut board = Chess_Board::default();
    assert!(!board.has_distances());
    board.generate_distance();
    assert!(board.has_distances());
    board.edge_counts[63][7] = 1;
    assert!(!board.has_distances());
    board.generate_distance();
    assert!(board.has_distances());
    board.edge_counts[0][1] = 6;
    assert!(!board.has_distances());
}
