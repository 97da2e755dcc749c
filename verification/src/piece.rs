//! Pieces of the board that is indexed by row and column.
use vstd::prelude::*;
use crate::chess_core::Player;

verus! {

/// The kind of piece on a square. `Empty` stands for a square without a
/// piece.
#[derive(Clone, Copy, Debug, PartialEq, Eq, Structural)]
pub enum Piece_Type {
    Pawn,
    Bishop,
    Knight,
    Rook,
    Queen,
    King,
    Empty,
}

/// What stands on a square: a kind, a side, and whether it has moved.
#[derive(Clone, Copy, Debug, PartialEq, Eq, Structural)]
pub struct Piece {
    pub piece_type: Piece_Type,
    pub color: Player,
    pub has_moved: bool,
}

impl Piece {
    /// A piece that has not moved yet.
    pub fn new(piece_type: Piece_Type, color: Player) -> (piece: Self)
        ensures
            piece == (Piece { piece_type, color, has_moved: false }),
    {
        Piece { piece_type, color, has_moved: false }
    }
}

} // verus!
