//! The mailbox board: sixty-four piece codes, the table of edge distances,
//! the history of moves and the castling flags.
//!
//! A piece code is a signed number. Its sign is the colour (positive for
//! the side that starts on the top two rows, negative for the other, zero
//! for an empty square) and its magnitude the kind: 1 pawn, 2 knight,
//! 3 bishop, 4 rook, 5 queen, 6 king.
use vstd::prelude::*;
use crate::geometry::{
    col_of, edge_distance, lemma_distance_sums, lemma_ray_on_board, min_int, ray_square, row_of,
    row_step, step_of, table_matches,
};

verus! {

/// One entry of the move history.
#[derive(Clone, Copy, Debug)]
pub struct Move {
    /// The code standing on the target square once the move was made.
    pub piece: i8,
    pub origin: usize,
    pub target: usize,
    /// The code that stood on the origin square before the move.
    pub capture: i8,
}

/// Flags kept beside the board.
#[derive(Clone, Copy, Debug)]
pub struct Board_Details {
    /// Whether the rook that started on square 0, 7, 56, 63 (in this
    /// order) has moved.
    pub rooks_have_moved: [bool; 4],
    /// Whether the king of the negative side (index 0) or of the positive
    /// side (index 1) has moved.
    pub kings_have_moved: [bool; 2],
    /// Negative while the one side is in check, positive while the other
    /// is, zero otherwise. Nothing in this crate updates it.
    pub is_check: i8,
}

/// The state of a game.
pub struct Chess_Board {
    /// The piece code on each square, row by row from the top left.
    pub board: [i8; 64],
    /// For each square, the number of squares between it and the edge of
    /// the board in each of the eight directions. It is all zero until
    /// `generate_distance` has filled it; the move generators read it.
    pub edge_counts: [[usize; 8]; 64],
    /// The moves made so far, oldest first.
    pub moves: Vec<Move>,
    pub details: Board_Details,
}

/// A code that stands for a piece or for an empty square.
pub open spec fn is_piece_code(code: i8) -> bool {
    -6 <= code <= 6
}

/// Every code of the layout stands for a piece or for an empty square.
pub open spec fn layout_valid(layout: Seq<i8>) -> bool {
    forall|s: int| 0 <= s < layout.len() ==> is_piece_code(#[trigger] layout[s])
}

/// Two piece codes belong to the same side. An empty square belongs to
/// neither.
pub open spec fn same_color(a: i8, b: i8) -> bool {
    (a > 0 && b > 0) || (a < 0 && b < 0)
}

/// `after` is what `before` becomes when the piece on `origin` is moved to
/// `target`: the target holds what stood on the origin, the origin is
/// empty, every other square is as it was, and the history has one more
/// entry, which records the move.
pub open spec fn after_move(
    before: Chess_Board,
    after: Chess_Board,
    origin: int,
    target: int,
) -> bool {
    &&& after.board@ == before.board@.update(target, before.board@[origin]).update(origin, 0i8)
    &&& after.moves@ == before.moves@.push(
        Move {
            piece: after.board@[target],
            origin: origin as usize,
            target: target as usize,
            capture: before.board@[origin],
        },
    )
    &&& after.edge_counts == before.edge_counts
    &&& after.details == before.details
}

/// The piece on the top row of the starting position in column `col`.
pub open spec fn back_rank_piece(col: int) -> i8 {
    if col == 0 || col == 7 {
        4
    } else if col == 1 || col == 6 {
        2
    } else if col == 2 || col == 5 {
        3
    } else if col == 3 {
        5
    } else {
        6
    }
}

/// The piece code on `square` in the starting position.
pub open spec fn initial_piece(square: int) -> i8 {
    let r = row_of(square);
    if r == 0 {
        back_rank_piece(col_of(square))
    } else if r == 1 {
        1
    } else if r == 6 {
        (-1) as i8
    } else if r == 7 {
        (-back_rank_piece(col_of(square))) as i8
    } else {
        0
    }
}

fn smaller(a: usize, b: usize) -> (m: usize)
    ensures
        m as int == min_int(a as int, b as int),
{
    if a < b {
        a
    } else {
        b
    }
}

impl Chess_Board {
    /// The distance table has been built.
    pub open spec fn distances_ready(&self) -> bool {
        table_matches(self.edge_counts@)
    }

    /// Every square holds the code of a piece, or is empty.
    pub open spec fn pieces_valid(&self) -> bool {
        layout_valid(self.board@)
    }

    /// In a table that has been built, on every square the distances up
    /// and down add up to 7, so do those left and right, and each diagonal
    /// distance is the smaller of its two straight components.
    pub proof fn lemma_table_sums(&self, square: int)
        requires
            self.distances_ready(),
            0 <= square < 64,
        ensures
            self.edge_counts@[square]@[0] + self.edge_counts@[square]@[1] == 7,
            self.edge_counts@[square]@[2] + self.edge_counts@[square]@[3] == 7,
            self.edge_counts@[square]@[4] as int == min_int(
                self.edge_counts@[square]@[0] as int,
                self.edge_counts@[square]@[2] as int,
            ),
            self.edge_counts@[square]@[5] as int == min_int(
                self.edge_counts@[square]@[0] as int,
                self.edge_counts@[square]@[3] as int,
            ),
            self.edge_counts@[square]@[6] as int == min_int(
                self.edge_counts@[square]@[1] as int,
                self.edge_counts@[square]@[3] as int,
            ),
            self.edge_counts@[square]@[7] as int == min_int(
                self.edge_counts@[square]@[1] as int,
                self.edge_counts@[square]@[2] as int,
            ),
    {
        lemma_distance_sums(square);
    }

    /// Whether the distance table has been built.
    pub fn has_distances(&self) -> (ready: bool)
        ensures
            ready == self.distances_ready(),
    {
        for square in 0..64usize
            invariant
                forall|s: int, d: int|
                    0 <= s < square && 0 <= d < 8 ==> (#[trigger] self.edge_counts@[s]@[d]) as int
                        == edge_distance(s, d),
        {
            let up: usize = square / 8;
            let down: usize = 7 - up;
            let left: usize = square % 8;
            let right: usize = 7 - left;
            let entry = &self.edge_counts[square];
            if entry[0] != up || entry[1] != down || entry[2] != left || entry[3] != right
                || entry[4] != smaller(up, left) || entry[5] != smaller(up, right) || entry[6]
                != smaller(down, right) || entry[7] != smaller(down, left) {
                assert(!(forall|d: int|
                    0 <= d < 8 ==> (#[trigger] self.edge_counts@[square as int]@[d]) as int
                        == edge_distance(square as int, d)));
                return false;
            }
        }
        true
    }

    /// Row of a square index.
    pub fn get_row(index: usize) -> (row: usize)
        ensures
            row as int == row_of(index as int),
    {
        index / 8
    }

    /// Column of a square index.
    pub fn get_col(index: usize) -> (col: usize)
        ensures
            col as int == col_of(index as int),
    {
        index % 8
    }

    /// Whether two piece codes have the same sign, which is to say that
    /// their product is positive.
    pub fn match_color(origin_piece: i8, target_piece: i8) -> (same: bool)
        ensures
            same == same_color(origin_piece, target_piece),
            same == (origin_piece as int * target_piece as int > 0),
    {
        proof {
            let a = origin_piece as int;
            let b = target_piece as int;
            assert((a * b > 0) == ((a > 0 && b > 0) || (a < 0 && b < 0))) by (nonlinear_arith);
        }
        (origin_piece > 0 && target_piece > 0) || (origin_piece < 0 && target_piece < 0)
    }

    /// The square `k` steps from `square` in direction `dir`.
    pub(crate) fn ray_target(&self, square: usize, dir: usize, k: usize) -> (target: usize)
        requires
            self.distances_ready(),
            square < 64,
            dir < 8,
            1 <= k <= edge_distance(square as int, dir as int),
        ensures
            target as int == ray_square(square as int, dir as int, k as int),
            target < 64,
    {
        proof {
            lemma_ray_on_board(square as int, dir as int, k as int);
        }
        let steps: [i8; 8] = [-8, 8, -1, 1, -9, -7, 9, 7];
        let step = steps[dir];
        assert(step as int == step_of(dir as int));
        assert(step * (k as i8) == step_of(dir as int) * k as int) by (nonlinear_arith)
            requires
                step as int == step_of(dir as int),
                (k as i8) as int == k as int,
        ;
        (square as i8 + step * (k as i8)) as usize
    }

    /// The square one step from `square` in direction `dir`.
    pub(crate) fn neighbor(&self, square: usize, dir: usize) -> (target: usize)
        requires
            self.distances_ready(),
            square < 64,
            dir < 8,
            edge_distance(square as int, dir as int) >= 1,
        ensures
            target as int == square as int + step_of(dir as int),
            target < 64,
            row_of(target as int) == row_of(square as int) + row_step(dir as int),
    {
        proof {
            lemma_ray_on_board(square as int, dir as int, 1);
        }
        self.ray_target(square, dir, 1)
    }

    /// Moves whatever stands on `origin` to `target`, empties `origin`, and
    /// appends the move to the history. Nothing is checked: an occupant of
    /// `target` is overwritten, and an empty `origin` moves an empty square.
    pub fn move_piece(&mut self, origin: usize, target: usize)
        requires
            origin < 64,
            target < 64,
        ensures
            after_move(*old(self), *final(self), origin as int, target as int),
            old(self).pieces_valid() ==> final(self).pieces_valid(),
            origin != target ==> final(self).board@[target as int] == old(self).board@[origin as int],
            final(self).board@[origin as int] == 0,
            final(self).moves@.len() == old(self).moves@.len() + 1,
    {
        let origin_piece = self.board[origin];
        self.board[target] = origin_piece;
        self.board[origin] = 0;
        let piece = self.board[target];
        self.moves.push(Move { piece, origin, target, capture: origin_piece });
    }

    /// Fills the distance table from the geometry of the board. The board,
    /// the history and the flags stay as they are.
    pub fn generate_distance(&mut self)
        ensures
            final(self).distances_ready(),
            final(self).board == old(self).board,
            final(self).moves == old(self).moves,
            final(self).details == old(self).details,
    {
        for col in 0..8usize
            invariant
                self.board == old(self).board,
                self.moves == old(self).moves,
                self.details == old(self).details,
                forall|s: int, d: int|
                    0 <= s < 64 && 0 <= d < 8 && col_of(s) < col ==> (
                    #[trigger] self.edge_counts@[s]@[d]) as int == edge_distance(s, d),
        {
            for row in 0..8usize
                invariant
                    col < 8,
                    self.board == old(self).board,
                    self.moves == old(self).moves,
                    self.details == old(self).details,
                    forall|s: int, d: int|
                        0 <= s < 64 && 0 <= d < 8 && (col_of(s) < col || (col_of(s) == col
                            && row_of(s) < row)) ==> (#[trigger] self.edge_counts@[s]@[d]) as int
                            == edge_distance(s, d),
            {
                let count_top: usize = row;
                let count_bottom: usize = 7 - row;
                let count_left: usize = col;
                let count_right: usize = 7 - col;
                let square_index: usize = col + (row * 8);
                self.edge_counts[square_index] = [
                    count_top,
                    count_bottom,
                    count_left,
                    count_right,
                    smaller(count_top, count_left),
                    smaller(count_top, count_right),
                    smaller(count_bottom, count_right),
                    smaller(count_bottom, count_left),
                ];
            }
        }
    }

    /// Replaces the sixty-four piece codes. The history, the flags and the
    /// distance table stay as they are.
    pub fn configure_board(&mut self, board: [i8; 64])
        ensures
            final(self).board == board,
            final(self).edge_counts == old(self).edge_counts,
            final(self).moves == old(self).moves,
            final(self).details == old(self).details,
    {
        self.board = board;
    }
}

impl Default for Chess_Board {
    /// The starting position, with an empty history, no flag set and a
    /// distance table that is still to be built.
    fn default() -> (b: Self)
        ensures
            forall|s: int| 0 <= s < 64 ==> #[trigger] b.board@[s] == initial_piece(s),
            b.pieces_valid(),
            forall|s: int, d: int| 0 <= s < 64 && 0 <= d < 8 ==> #[trigger] b.edge_counts@[s]@[d] == 0,
            b.moves@.len() == 0,
            forall|i: int| 0 <= i < 4 ==> !#[trigger] b.details.rooks_have_moved@[i],
            forall|i: int| 0 <= i < 2 ==> !#[trigger] b.details.kings_have_moved@[i],
            b.details.is_check == 0,
    {
        Chess_Board {
            board: [
                4, 2, 3, 5, 6, 3, 2, 4,
                1, 1, 1, 1, 1, 1, 1, 1,
                0, 0, 0, 0, 0, 0, 0, 0,
                0, 0, 0, 0, 0, 0, 0, 0,
                0, 0, 0, 0, 0, 0, 0, 0,
                0, 0, 0, 0, 0, 0, 0, 0,
                -1, -1, -1, -1, -1, -1, -1, -1,
                -4, -2, -3, -5, -6, -3, -2, -4,
            ],
            edge_counts: [[0; 8]; 64],
            moves: Vec::new(),
            details: Board_Details {
                rooks_have_moved: [false, false, false, false],
                kings_have_moved: [false, false],
                is_check: 0,
            },
        }
    }
}

} // verus!
