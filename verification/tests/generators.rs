use intermezzo::chess::Chess_Board;

fn fresh() -> Chess_Board {
    let mut board = Chess_Board::default();
    board.generate_distance();
    board
}

fn sample() -> Chess_Board {
    let mut board = fresh();
    board.configure_board([
        4, 0, 3, 5, 6, 3, 2, 4,
        0, 0, 1, 0, 0, 1, 1, 1,
        0, 0, 0, 0, 1, 1, -1, 0,
        0, -1, 0, 0, -2, 0, 0, 0,
        0, 0, 0, 0, 0, 0, 0, 0,
        0, 0, 0, 0, 0, 0, 0, 0,
        -1, -1, -1, -1, -1, 1, -1, 1,
        -4, -2, -3, -5, -6, 0, -2, 0,
    ]);
    board
}

fn lone(piece: i8, square: usize) -> Chess_Board {
    let mut board = fresh();
    let mut layout = [0i8; 64];
    layout[square] = piece;
    board.configure_board(layout);
    board
}

#[test]
fn sample_bishop() {
    let board = sample();
    assert_eq!(board.bishop_moves(board.board[2], 2), vec![11, 9, 16]);
}

#[test]
fn sample_rook() {
    let board = sample();
    assert_eq!(board.rook_moves(board.board[0], 0), vec![8, 16, 24, 32, 40, 48, 1]);
}

#[test]
fn sample_queen() {
    let board = sample();
    assert_eq!(board.queen_moves(board.board[3], 3), vec![12, 11, 19, 27, 35, 43, 51]);
}

#[test]
fn sample_knights() {
    let board = sample();
    assert_eq!(board.knight_moves(board.board[28], 28), vec![11, 13, 18, 34, 38, 43, 45]);
    assert_eq!(board.knight_moves(board.board[6], 6), vec![12, 23]);
}

#[test]
fn sample_pawns() {
    let board = sample();
    assert_eq!(board.pawn_moves(board.board[13], 13), vec![22]);
    assert_eq!(
        board.pawn_moves(board.board[55], 55),
        vec![263, 363, 463, 563, 262, 362, 462, 562]
    );
    assert_eq!(
        board.pawn_moves(board.board[53], 53),
        vec![261, 361, 461, 561, 262, 362, 462, 562, 260, 360, 460, 560]
    );
}

#[test]
fn sample_en_passant_after_the_double_push() {
    let mut board = sample();
    board.move_piece(10, 26);
    assert_eq!(board.pawn_moves(board.board[25], 25), vec![17, 18]);
}

#[test]
fn lone_rook_in_the_middle() {
    let board = lone(4, 27);
    assert_eq!(
        board.rook_moves(4, 27),
        vec![19, 11, 3, 35, 43, 51, 59, 26, 25, 24, 28, 29, 30, 31]
    );
}

#[test]
fn lone_bishop_on_the_left_edge_does_not_wrap() {
    let board = lone(-3, 24);
    assert_eq!(board.bishop_moves(-3, 24), vec![17, 10, 3, 33, 42, 51, 60]);
}

#[test]
fn lone_bishop_on_the_right_edge_does_not_wrap() {
    let board = lone(3, 31);
    assert_eq!(board.bishop_moves(3, 31), vec![22, 13, 4, 38, 45, 52, 59]);
}

#[test]
fn lone_queen_in_a_corner() {
    let board = lone(5, 63);
    assert_eq!(
        board.queen_moves(5, 63),
        vec![54, 45, 36, 27, 18, 9, 0, 55, 47, 39, 31, 23, 15, 7, 62, 61, 60, 59, 58, 57, 56]
    );
}

#[test]
fn slider_stops_at_the_first_piece() {
    let mut board = fresh();
    let mut layout = [0i8; 64];
    layout[27] = 4;
    layout[11] = -1;
    layout[3] = -4;
    layout[43] = 1;
    layout[59] = -4;
    layout[25] = 2;
    layout[29] = -2;
    layout[30] = -1;
    board.configure_board(layout);
    assert_eq!(board.rook_moves(4, 27), vec![19, 11, 35, 26, 28, 29]);
    assert_eq!(board.rook_moves(-4, 27), vec![19, 35, 43, 26, 25, 28]);
}

#[test]
fn lone_knight_in_the_middle() {
    let board = lone(2, 27);
    assert_eq!(board.knight_moves(2, 27), vec![10, 12, 17, 21, 33, 37, 42, 44]);
}

#[test]
fn lone_knight_in_the_corners() {
    assert_eq!(lone(2, 0).knight_moves(2, 0), vec![10, 17]);
    assert_eq!(lone(2, 7).knight_moves(2, 7), vec![13, 22]);
    assert_eq!(lone(-2, 56).knight_moves(-2, 56), vec![41, 50]);
    assert_eq!(lone(-2, 63).knight_moves(-2, 63), vec![46, 53]);
}

#[test]
fn knight_near_the_edge_does_not_wrap() {
    assert_eq!(lone(2, 15).knight_moves(2, 15), vec![5, 21, 30]);
    assert_eq!(lone(2, 48).knight_moves(2, 48), vec![33, 42, 58]);
}

#[test]
fn knight_jumps_have_the_shape_of_an_l() {
    let board = sample();
    for square in 0..64usize {
        for color in [-2i8, 2i8] {
            for dest in board.knight_moves(color, square) {
                assert!(dest < 64);
                let rows = (dest / 8).abs_diff(square / 8);
                let cols = (dest % 8).abs_diff(square % 8);
                assert!((rows == 1 && cols == 2) || (rows == 2 && cols == 1));
                assert!(!Chess_Board::match_color(color, board.board[dest]));
            }
        }
    }
}

#[test]
fn sliders_never_pass_a_piece() {
    let board = sample();
    for square in 0..64usize {
        for color in [-5i8, 5i8] {
            for dest in board.queen_moves(color, square) {
                assert!(dest < 64 && dest != square);
                assert!(!Chess_Board::match_color(color, board.board[dest]));
                let rows = dest as i32 / 8 - square as i32 / 8;
                let cols = dest as i32 % 8 - square as i32 % 8;
                assert!(rows == 0 || cols == 0 || rows.abs() == cols.abs());
                let steps = rows.abs().max(cols.abs());
                for k in 1..steps {
                    let r = square as i32 / 8 + rows.signum() * k;
                    let c = square as i32 % 8 + cols.signum() * k;
                    assert_eq!(board.board[(r * 8 + c) as usize], 0);
                }
            }
        }
    }
}

#[test]
fn corner_rook_is_blocked_at_the_start() {
    let board = fresh();
    assert_eq!(board.rook_moves(4, 0), Vec::<usize>::new());
    assert_eq!(board.rook_moves(-4, 63), Vec::<usize>::new());
    assert_eq!(board.bishop_moves(3, 2), Vec::<usize>::new());
    assert_eq!(board.queen_moves(5, 3), Vec::<usize>::new());
}

#[test]
fn corner_rook_sees_the_squares_that_were_cleared() {
    let mut board = fresh();
    board.move_piece(8, 24);
    board.move_piece(1, 18);
    assert_eq!(board.rook_moves(4, 0), vec![8, 16, 1]);
}

#[test]
fn knights_at_the_start() {
    let board = fresh();
    assert_eq!(board.knight_moves(2, 1), vec![16, 18]);
    assert_eq!(board.knight_moves(-2, 62), vec![45, 47]);
}

#[test]
fn pawn_pushes_from_the_start_row() {
    let board = fresh();
    assert_eq!(board.pawn_moves(1, 12), vec![20, 28]);
    assert_eq!(board.pawn_moves(-1, 52), vec![44, 36]);
}

#[test]
fn pawn_double_push_needs_both_squares_empty() {
    let mut board = fresh();
    let mut layout = board.board;
    layout[28] = -2;
    board.configure_board(layout);
    assert_eq!(board.pawn_moves(1, 12), vec![20]);
    layout[28] = 0;
    layout[20] = -2;
    board.configure_board(layout);
    assert_eq!(board.pawn_moves(1, 12), Vec::<usize>::new());
    assert_eq!(board.pawn_moves(1, 11), vec![19, 27, 20]);
    assert_eq!(board.pawn_moves(1, 13), vec![21, 29, 20]);
}

#[test]
fn pawn_off_the_start_row_pushes_once() {
    let board = lone(-1, 36);
    assert_eq!(board.pawn_moves(-1, 36), vec![28]);
    let board = lone(1, 28);
    assert_eq!(board.pawn_moves(1, 28), vec![36]);
}

#[test]
fn pawn_captures_on_both_diagonals() {
    let mut board = fresh();
    let mut layout = [0i8; 64];
    layout[36] = -1;
    layout[27] = 2;
    layout[29] = 4;
    layout[28] = 1;
    board.configure_board(layout);
    assert_eq!(board.pawn_moves(-1, 36), vec![27, 29]);
    assert_eq!(board.pawn_captures(-1, 36), vec![27, 29]);
    layout[29] = -4;
    layout[28] = 0;
    board.configure_board(layout);
    assert_eq!(board.pawn_moves(-1, 36), vec![28, 27]);
    assert_eq!(board.pawn_captures(-1, 36), vec![27]);
}

#[test]
fn pawn_on_the_edge_file_does_not_wrap() {
    let mut board = fresh();
    let mut layout = [0i8; 64];
    layout[24] = 1;
    layout[31] = -3;
    layout[39] = -3;
    layout[33] = -2;
    board.configure_board(layout);
    assert_eq!(board.pawn_moves(1, 24), vec![32, 33]);
    layout[32] = -1;
    layout[23] = 2;
    layout[24] = 0;
    layout[25] = 2;
    board.configure_board(layout);
    assert_eq!(board.pawn_moves(-1, 32), vec![24, 25]);
}

#[test]
fn pawn_captures_only_on_the_sample() {
    let board = sample();
    assert_eq!(board.pawn_captures(1, 13), vec![22]);
    assert_eq!(
        board.pawn_captures(1, 53),
        vec![262, 362, 462, 562, 260, 360, 460, 560, 261, 361, 461, 561]
    );
    assert_eq!(board.pawn_captures(-1, 49), Vec::<usize>::new());
}

#[test]
fn promotion_by_push_lists_the_four_encodings() {
    let board = lone(-1, 12);
    assert_eq!(
        board.pawn_moves(-1, 12),
        vec![204, 304, 404, 504, 203, 303, 403, 503, 205, 305, 405, 505]
    );
    let moves = board.pawn_moves(-1, 12);
    assert!(!moves.contains(&4));
    assert_eq!(moves.iter().filter(|d| **d % 100 == 4).count(), 4);
}

#[test]
fn promotion_push_is_blocked_by_a_piece() {
    let mut board = fresh();
    let mut layout = [0i8; 64];
    layout[52] = 1;
    layout[60] = -6;
    board.configure_board(layout);
    assert_eq!(
        board.pawn_moves(1, 52),
        vec![261, 361, 461, 561, 259, 359, 459, 559]
    );
    assert_eq!(
        board.pawn_captures(1, 52),
        vec![261, 361, 461, 561, 259, 359, 459, 559]
    );
}

#[test]
fn en_passant_for_the_side_that_moves_up() {
    let mut board = fresh();
    let mut layout = board.board;
    layout[51] = 0;
    layout[27] = -1;
    board.configure_board(layout);
    board.move_piece(12, 28);
    assert_eq!(board.pawn_moves(-1, 27), vec![19, 20]);
    assert_eq!(board.pawn_captures(-1, 27), vec![20]);
    board.move_piece(48, 40);
    assert_eq!(board.pawn_moves(-1, 27), vec![19]);
    assert_eq!(board.pawn_captures(-1, 27), Vec::<usize>::new());
}

#[test]
fn en_passant_for_the_side_that_moves_down() {
    let mut board = fresh();
    let mut layout = board.board;
    layout[11] = 0;
    layout[35] = 1;
    board.configure_board(layout);
    board.move_piece(52, 36);
    assert_eq!(board.pawn_moves(1, 35), vec![43, 44]);
    board.move_piece(50, 34);
    assert_eq!(board.pawn_moves(1, 35), vec![43, 42]);
    board.move_piece(8, 16);
    assert_eq!(board.pawn_moves(1, 35), vec![43]);
}

#[test]
fn en_passant_needs_a_pawn_that_went_two_rows() {
    let mut board = fresh();
    let mut layout = [0i8; 64];
    layout[27] = -1;
    layout[20] = 1;
    layout[12] = 2;
    board.configure_board(layout);
    board.move_piece(20, 28);
    assert_eq!(board.pawn_moves(-1, 27), vec![19]);
    board.move_piece(12, 28);
    board.move_piece(28, 12);
    board.move_piece(12, 28);
    assert_eq!(board.board[28], 2);
    assert_eq!(board.pawn_moves(-1, 27), vec![19]);
}

#[test]
fn en_passant_is_not_for_the_own_side() {
    let mut board = fresh();
    let mut layout = board.board;
    layout[27] = 1;
    board.configure_board(layout);
    board.move_piece(12, 28);
    assert_eq!(board.pawn_moves(1, 27), vec![35]);
}

#[test]
fn pawn_on_its_last_row_has_no_move() {
    let board = lone(1, 60);
    assert_eq!(board.pawn_moves(1, 60), Vec::<usize>::new());
    assert_eq!(board.pawn_captures(1, 60), Vec::<usize>::new());
    let board = lone(-1, 3);
    assert_eq!(board.pawn_moves(-1, 3), Vec::<usize>::new());
    assert_eq!(board.pawn_captures(-1, 3), Vec::<usize>::new());
}

#[test]
fn en_passant_onto_the_promotion_row_is_listed_plain() {
    let mut board = fresh();
    let mut layout = [0i8; 64];
    layout[8] = -1;
    layout[25] = 1;
    board.configure_board(layout);
    board.move_piece(25, 9);
    assert_eq!(
        board.pawn_moves(-1, 8),
        vec![200, 300, 400, 500, 201, 301, 401, 501, 1]
    );
}

#[test]
fn generators_do_not_change_the_board() {
    let mut board = sample();
    board.move_piece(10, 26);
    let cells = board.board;
    let table = board.edge_counts;
    let _ = board.pawn_moves(-1, 25);
    let _ = board.pawn_captures(-1, 25);
    let _ = board.knight_moves(2, 6);
    let _ = board.bishop_moves(3, 2);
    let _ = board.rook_moves(4, 0);
    let _ = board.queen_moves(5, 3);
    let _ = board.king_moves(6, 4);
    let _ = board.check_opponent_attacks(1);
    assert_eq!(board.board, cells);
    assert_eq!(board.edge_counts, table);
    assert_eq!(board.moves.len(), 1);
}
