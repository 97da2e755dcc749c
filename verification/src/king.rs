//! King moves: one step in each direction, and the two castling intents.
//!
//! Castling is reported as a destination of its own: 101 for short
//! castling, with the rook on the king's side of the board (column 7),
//! and 1001 for long castling, with the rook on the queen's side
//! (column 0).
use vstd::prelude::*;
use vstd::seq_lib::lemma_seq_concat_contains_all_elements;
use crate::chess::{same_color, Board_Details, Chess_Board};
use crate::geometry::{edge_distance, lemma_ray_on_board, step_of};

verus! {

/// The order in which the king tries the eight directions: down, up,
/// left, right, then the four diagonals.
pub open spec fn king_dir(i: int) -> int {
    if i == 0 {
        1
    } else if i == 1 {
        0
    } else {
        i
    }
}

/// The step of the piece on `square` in direction `dir`: the adjacent
/// square, unless it lies off the board or holds a piece of the same side
/// as the one on `square`.
pub open spec fn king_step(board: Seq<i8>, square: int, dir: int) -> Seq<usize> {
    let target = square + step_of(dir);
    if edge_distance(square, dir) >= 1 && !same_color(board[square], board[target]) {
        seq![target as usize]
    } else {
        Seq::empty()
    }
}

/// The steps in the first `n` directions of the king's order.
pub open spec fn king_steps(board: Seq<i8>, square: int, n: int) -> Seq<usize>
    decreases n,
{
    if n <= 0 {
        Seq::empty()
    } else {
        king_steps(board, square, n - 1) + king_step(board, square, king_dir(n - 1))
    }
}

/// The square on which the king of `color` starts.
pub open spec fn king_home(color: i8) -> int {
    if color < 0 {
        60
    } else {
        4
    }
}

/// The square on which the rook of `color` on `side` starts: side 0 is
/// the king's side of the board, side 1 the queen's side.
pub open spec fn rook_home(color: i8, side: int) -> int {
    if color < 0 {
        if side == 0 {
            63
        } else {
            56
        }
    } else {
        if side == 0 {
            7
        } else {
            0
        }
    }
}

/// The place of that rook among the rook flags, which follow the squares
/// 0, 7, 56 and 63.
pub open spec fn rook_flag(color: i8, side: int) -> int {
    if color < 0 {
        3 - side
    } else {
        1 - side
    }
}

/// The place of the king of `color` among the king flags.
pub open spec fn king_flag(color: i8) -> int {
    if color < 0 {
        0
    } else {
        1
    }
}

/// The destination that stands for castling with the rook on `side`: 101
/// on the king's side, 1001 on the queen's side.
pub open spec fn castle_code(side: int) -> usize {
    if side == 0 {
        101
    } else {
        1001
    }
}

/// Every square strictly between `low` and `high` is empty.
pub open spec fn empty_between(board: Seq<i8>, low: int, high: int) -> bool {
    forall|s: int| low < s < high ==> #[trigger] board[s] == 0
}

/// Castling of `color` with the rook on `side` is open: neither that rook
/// nor the king is flagged as moved, a rook and a king stand on their
/// home squares, and the squares between the two are empty.
pub open spec fn can_castle(board: Seq<i8>, details: Board_Details, color: i8, side: int) -> bool {
    let rook = rook_home(color, side);
    let king = king_home(color);
    &&& !details.rooks_have_moved@[rook_flag(color, side)]
    &&& !details.kings_have_moved@[king_flag(color)]
    &&& (board[rook] == 4 || board[rook] == -4)
    &&& (board[king] == 6 || board[king] == -6)
    &&& if rook < king {
        empty_between(board, rook, king)
    } else {
        empty_between(board, king, rook)
    }
}

/// The castling intents of `color`, the short one first.
pub open spec fn castles(board: Seq<i8>, details: Board_Details, color: i8) -> Seq<usize> {
    (if can_castle(board, details, color, 0) {
        seq![castle_code(0)]
    } else {
        Seq::empty()
    }) + (if can_castle(board, details, color, 1) {
        seq![castle_code(1)]
    } else {
        Seq::empty()
    })
}

/// Every step of the king lands on the board.
pub proof fn lemma_king_steps_on_board(board: Seq<i8>, square: int, n: int, dest: usize)
    requires
        0 <= square < 64,
        0 <= n <= 8,
        king_steps(board, square, n).contains(dest),
    ensures
        dest < 64,
    decreases n,
{
    if n > 0 {
        let before = king_steps(board, square, n - 1);
        let step = king_step(board, square, king_dir(n - 1));
        lemma_seq_concat_contains_all_elements(before, step, dest);
        if before.contains(dest) {
            lemma_king_steps_on_board(board, square, n - 1, dest);
        } else {
            lemma_ray_on_board(square, king_dir(n - 1), 1);
            let i = choose|i: int| 0 <= i < step.len() && step[i] == dest;
            assert(step[i] == dest);
        }
    }
}

impl Chess_Board {
    /// Every destination of the king of `color` on `square`: its steps,
    /// then the castling intents of `color`.
    pub open spec fn king_destinations(&self, color: i8, square: int) -> Seq<usize> {
        king_steps(self.board@, square, 8) + castles(self.board@, self.details, color)
    }

    /// The king's destinations hold the castling intent of a side exactly
    /// when castling with that rook is open: with the squares between king
    /// and rook empty, both at home and neither flagged as moved, the
    /// intent is listed; once the rook or the king is flagged, it is not.
    pub proof fn lemma_castle_listed(&self, color: i8, square: int, side: int)
        requires
            0 <= square < 64,
            side == 0 || side == 1,
        ensures
            self.king_destinations(color, square).contains(castle_code(side)) <==> can_castle(
                self.board@,
                self.details,
                color,
                side,
            ),
            self.details.rooks_have_moved@[rook_flag(color, side)] ==> !self.king_destinations(
                color,
                square,
            ).contains(castle_code(side)),
            self.details.kings_have_moved@[king_flag(color)] ==> !self.king_destinations(
                color,
                square,
            ).contains(castle_code(side)),
    {
        let steps = king_steps(self.board@, square, 8);
        let intents = castles(self.board@, self.details, color);
        let code = castle_code(side);
        lemma_seq_concat_contains_all_elements(steps, intents, code);
        if steps.contains(code) {
            lemma_king_steps_on_board(self.board@, square, 8, code);
        }
        let left = if can_castle(self.board@, self.details, color, 0) {
            seq![castle_code(0)]
        } else {
            Seq::empty()
        };
        let right = if can_castle(self.board@, self.details, color, 1) {
            seq![castle_code(1)]
        } else {
            Seq::empty()
        };
        lemma_seq_concat_contains_all_elements(left, right, code);
        if can_castle(self.board@, self.details, color, 0) {
            assert(left[0] == castle_code(0));
        }
        if can_castle(self.board@, self.details, color, 1) {
            assert(right[0] == castle_code(1));
        }
    }

    fn path_is_empty(&self, low: usize, high: usize) -> (clear: bool)
        requires
            low < high < 64,
        ensures
            clear == empty_between(self.board@, low as int, high as int),
    {
        let mut s_idx: usize = low + 1;
        while s_idx < high
            invariant
                low < s_idx <= high < 64,
                empty_between(self.board@, low as int, s_idx as int),
            decreases high - s_idx,
        {
            if self.board[s_idx] != 0 {
                return false;
            }
            s_idx += 1;
        }
        true
    }

    fn castle_is_open(&self, color: i8, side: usize) -> (allowed: bool)
        requires
            side < 2,
        ensures
            allowed == can_castle(self.board@, self.details, color, side as int),
    {
        let king_detail_index: usize = if color < 0 { 0 } else { 1 };
        let rook_detail_index: [usize; 2] = if color < 0 { [3, 2] } else { [1, 0] };
        let rook_squares: [usize; 2] = if color < 0 { [63, 56] } else { [7, 0] };
        let king_square: usize = if color < 0 { 60 } else { 4 };
        let rook_square = rook_squares[side];
        if self.details.rooks_have_moved[rook_detail_index[side]]
            || self.details.kings_have_moved[king_detail_index] {
            return false;
        }
        let rook = self.board[rook_square];
        let king = self.board[king_square];
        if !(rook == 4 || rook == -4) || !(king == 6 || king == -6) {
            return false;
        }
        if rook_square < king_square {
            self.path_is_empty(rook_square, king_square)
        } else {
            self.path_is_empty(king_square, rook_square)
        }
    }

    /// The pseudo-legal destinations of the king of `color` on `square`.
    /// Whether the king would pass through or land on an attacked square
    /// is not looked at.
    pub fn king_moves(&self, color: i8, square: usize) -> (results: Vec<usize>)
        requires
            self.distances_ready(),
            square < 64,
        ensures
            results@ == self.king_destinations(color, square as int),
    {
        let mut results: Vec<usize> = Vec::new();
        let directions: [usize; 8] = [1, 0, 2, 3, 4, 5, 6, 7];
        for i_idx in 0..8usize
            invariant
                self.distances_ready(),
                square < 64,
                forall|i: int| 0 <= i < 8 ==> #[trigger] directions@[i] as int == king_dir(i),
                results@ == king_steps(self.board@, square as int, i_idx as int),
        {
            let dir = directions[i_idx];
            if self.edge_counts[square][dir] > 0 {
                let new_square = self.neighbor(square, dir);
                if !Self::match_color(self.board[square], self.board[new_square]) {
                    results.push(new_square);
                }
            }
            assert(results@ =~= king_steps(self.board@, square as int, i_idx as int + 1));
        }
        let ghost steps = results@;
        if self.castle_is_open(color, 0) {
            results.push(101);
        }
        if self.castle_is_open(color, 1) {
            results.push(1001);
        }
        assert(results@ =~= steps + castles(self.board@, self.details, color));
        results
    }
}

} // verus!
