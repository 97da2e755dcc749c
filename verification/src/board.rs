//! The board as eight rows of eight pieces, with the player to move.
use vstd::prelude::*;
use crate::chess_core::{Direction, Player, Square};
use crate::piece::{Piece, Piece_Type};

verus! {

/// A board of eight rows, the top row first, and the player to move.
pub struct Chess_Board {
    pub board: [[Piece; 8]; 8],
    pub current_player: Player,
}

/// The kind of piece that starts in column `col` of a back row.
pub open spec fn back_row_kind(col: int) -> Piece_Type {
    if col == 0 || col == 7 {
        Piece_Type::Rook
    } else if col == 1 || col == 6 {
        Piece_Type::Knight
    } else if col == 2 || col == 5 {
        Piece_Type::Bishop
    } else if col == 3 {
        Piece_Type::Queen
    } else {
        Piece_Type::King
    }
}

/// The piece on row `row` and column `col` of the starting position:
/// Black on the two top rows, White on the two bottom rows, nothing has
/// moved.
pub open spec fn starting_piece(row: int, col: int) -> Piece {
    if row == 0 {
        Piece { piece_type: back_row_kind(col), color: Player::Black, has_moved: false }
    } else if row == 1 {
        Piece { piece_type: Piece_Type::Pawn, color: Player::Black, has_moved: false }
    } else if row == 6 {
        Piece { piece_type: Piece_Type::Pawn, color: Player::White, has_moved: false }
    } else if row == 7 {
        Piece { piece_type: back_row_kind(col), color: Player::White, has_moved: false }
    } else {
        Piece { piece_type: Piece_Type::Empty, color: Player::Neither, has_moved: false }
    }
}

impl Chess_Board {
    /// The piece on row `row` and column `col`.
    pub open spec fn piece_at(&self, row: int, col: int) -> Piece {
        self.board@[row]@[col]
    }

    /// The board holds the starting position.
    pub open spec fn is_starting_position(&self) -> bool {
        forall|row: int, col: int|
            0 <= row < 8 && 0 <= col < 8 ==> #[trigger] self.piece_at(row, col) == starting_piece(
                row,
                col,
            )
    }

    /// A board in the starting position, with `player` to move.
    pub fn new(player: Player) -> (created: Self)
        ensures
            created.is_starting_position(),
            created.current_player == player,
    {
        let mut new_board = Chess_Board {
            board: [[Piece::new(Piece_Type::Empty, Player::Neither); 8]; 8],
            current_player: player,
        };
        new_board.initial_setup();
        new_board
    }

    /// Puts the starting position on the board, whatever stood there.
    pub fn initial_setup(&mut self)
        ensures
            final(self).is_starting_position(),
            final(self).current_player == old(self).current_player,
    {
        let empty = Piece::new(Piece_Type::Empty, Player::Neither);
        self.board[0] = [
            Piece::new(Piece_Type::Rook, Player::Black),
            Piece::new(Piece_Type::Knight, Player::Black),
            Piece::new(Piece_Type::Bishop, Player::Black),
            Piece::new(Piece_Type::Queen, Player::Black),
            Piece::new(Piece_Type::King, Player::Black),
            Piece::new(Piece_Type::Bishop, Player::Black),
            Piece::new(Piece_Type::Knight, Player::Black),
            Piece::new(Piece_Type::Rook, Player::Black),
        ];
        self.board[1] = [Piece::new(Piece_Type::Pawn, Player::Black); 8];
        self.board[2] = [empty; 8];
        self.board[3] = [empty; 8];
        self.board[4] = [empty; 8];
        self.board[5] = [empty; 8];
        self.board[6] = [Piece::new(Piece_Type::Pawn, Player::White); 8];
        self.board[7] = [
            Piece::new(Piece_Type::Rook, Player::White),
            Piece::new(Piece_Type::Knight, Player::White),
            Piece::new(Piece_Type::Bishop, Player::White),
            Piece::new(Piece_Type::Queen, Player::White),
            Piece::new(Piece_Type::King, Player::White),
            Piece::new(Piece_Type::Bishop, Player::White),
            Piece::new(Piece_Type::Knight, Player::White),
            Piece::new(Piece_Type::Rook, Player::White),
        ];
    }
}

impl std::ops::Index<(usize, usize)> for Chess_Board {
    type Output = Piece;

    fn index(&self, index: (usize, usize)) -> (piece: &Piece)
        ensures
            *piece == self.piece_at(index.0 as int, index.1 as int),
    {
        &self.board[index.0][index.1]
    }
}

impl vstd::std_specs::core::IndexSpecImpl<(usize, usize)> for Chess_Board {
    open spec fn index_req(&self, index: &(usize, usize)) -> bool {
        index.0 < 8 && index.1 < 8
    }
}

impl std::ops::Index<Square> for Chess_Board {
    type Output = Piece;

    fn index(&self, index: Square) -> (piece: &Piece)
        ensures
            *piece == self.piece_at(index.row as int, index.col as int),
    {
        &self.board[index.row][index.col]
    }
}

impl vstd::std_specs::core::IndexSpecImpl<Square> for Chess_Board {
    open spec fn index_req(&self, index: &Square) -> bool {
        index.row < 8 && index.col < 8
    }
}

/// One row up.
pub fn north() -> (direction: Direction)
    ensures
        direction.d_row == -1,
        direction.d_col == 0,
{
    Direction::new(-1, 0)
}

/// One row down.
pub fn south() -> (direction: Direction)
    ensures
        direction.d_row == 1,
        direction.d_col == 0,
{
    Direction::new(1, 0)
}

/// One column to the right.
pub fn east() -> (direction: Direction)
    ensures
        direction.d_row == 0,
        direction.d_col == 1,
{
    Direction::new(0, 1)
}

/// One column to the left.
pub fn west() -> (direction: Direction)
    ensures
        direction.d_row == 0,
        direction.d_col == -1,
{
    Direction::new(0, -1)
}

/// One row up and one column to the right.
pub fn northeast() -> (direction: Direction)
    ensures
        direction.d_row == -1,
        direction.d_col == 1,
{
    Direction::new(-1, 1)
}

/// One row up and one column to the left.
pub fn northwest() -> (direction: Direction)
    ensures
        direction.d_row == -1,
        direction.d_col == -1,
{
    Direction::new(-1, -1)
}

/// One row down and one column to the right.
pub fn southeast() -> (direction: Direction)
    ensures
        direction.d_row == 1,
        direction.d_col == 1,
{
    Direction::new(1, 1)
}

/// One row down and one column to the left.
pub fn southwest() -> (direction: Direction)
    ensures
        direction.d_row == 1,
        direction.d_col == -1,
{
    Direction::new(1, -1)
}

} // verus!
