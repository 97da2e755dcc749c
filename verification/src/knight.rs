//! Knight moves: eight jumps of two squares along one axis and one square
//! along the other.
use vstd::prelude::*;
use crate::chess::{same_color, Chess_Board};
use crate::geometry::{col_of, col_step, edge_distance, row_of, row_step, step_of};

verus! {

/// The direction in which the `j`-th jump goes two squares.
pub open spec fn knight_long(j: int) -> int {
    if j == 0 || j == 1 {
        0
    } else if j == 2 || j == 4 {
        2
    } else if j == 3 || j == 5 {
        3
    } else {
        1
    }
}

/// The direction in which the `j`-th jump goes one square.
pub open spec fn knight_short(j: int) -> int {
    if j == 0 || j == 6 {
        2
    } else if j == 1 || j == 7 {
        3
    } else if j == 2 || j == 3 {
        0
    } else {
        1
    }
}

/// The square on which the `j`-th jump from `square` lands.
pub open spec fn knight_target(square: int, j: int) -> int {
    square + 2 * step_of(knight_long(j)) + step_of(knight_short(j))
}

/// The `j`-th jump of the knight of `color` on `square`: its landing
/// square, unless the jump leaves the board or lands on a piece of the
/// knight's own side.
pub open spec fn knight_jump(board: Seq<i8>, color: i8, square: int, j: int) -> Seq<usize> {
    if edge_distance(square, knight_long(j)) >= 2 && edge_distance(square, knight_short(j)) >= 1
        && !same_color(color, board[knight_target(square, j)]) {
        seq![knight_target(square, j) as usize]
    } else {
        Seq::empty()
    }
}

/// The first `n` jumps.
pub open spec fn knight_jumps(board: Seq<i8>, color: i8, square: int, n: int) -> Seq<usize>
    decreases n,
{
    if n <= 0 {
        Seq::empty()
    } else {
        knight_jumps(board, color, square, n - 1) + knight_jump(board, color, square, n - 1)
    }
}

/// The absolute value of the difference of two numbers.
pub open spec fn gap(a: int, b: int) -> int {
    if a < b {
        b - a
    } else {
        a - b
    }
}

/// `dest` is a knight's jump away from `square`: two rows and one column,
/// or one row and two columns.
pub open spec fn knight_shape(square: int, dest: int) -> bool {
    let rows = gap(row_of(square), row_of(dest));
    let cols = gap(col_of(square), col_of(dest));
    (rows == 2 && cols == 1) || (rows == 1 && cols == 2)
}

/// A jump that the edge distances allow lands on the board, two squares
/// away along its long direction and one along its short direction.
pub proof fn lemma_knight_on_board(square: int, j: int)
    requires
        0 <= square < 64,
        0 <= j < 8,
        edge_distance(square, knight_long(j)) >= 2,
        edge_distance(square, knight_short(j)) >= 1,
    ensures
        0 <= knight_target(square, j) < 64,
        row_of(knight_target(square, j)) == row_of(square) + 2 * row_step(knight_long(j))
            + row_step(knight_short(j)),
        col_of(knight_target(square, j)) == col_of(square) + 2 * col_step(knight_long(j))
            + col_step(knight_short(j)),
        knight_shape(square, knight_target(square, j)),
{
    let r = row_of(square);
    let c = col_of(square);
    let dr = 2 * row_step(knight_long(j)) + row_step(knight_short(j));
    let dc = 2 * col_step(knight_long(j)) + col_step(knight_short(j));
    assert(square == 8 * r + c);
    assert(0 <= r + dr <= 7);
    assert(0 <= c + dc <= 7);
    assert(knight_target(square, j) == 8 * (r + dr) + (c + dc));
}

/// Every destination of a knight lies on the board, a knight's jump away,
/// and holds no piece of the knight's own side.
pub proof fn lemma_knight_jumps_shape(board: Seq<i8>, color: i8, square: int, n: int, dest: usize)
    requires
        0 <= square < 64,
        0 <= n <= 8,
        knight_jumps(board, color, square, n).contains(dest),
    ensures
        dest < 64,
        knight_shape(square, dest as int),
        !same_color(color, board[dest as int]),
    decreases n,
{
    if n > 0 {
        let before = knight_jumps(board, color, square, n - 1);
        let jump = knight_jump(board, color, square, n - 1);
        let i = choose|i: int| 0 <= i < (before + jump).len() && (before + jump)[i] == dest;
        if i < before.len() {
            assert(before[i] == dest);
            lemma_knight_jumps_shape(board, color, square, n - 1, dest);
        } else {
            assert(jump[i - before.len()] == dest);
            lemma_knight_on_board(square, n - 1);
        }
    }
}

impl Chess_Board {
    /// Every destination of the knight of `color` on `square`, in the
    /// order of the eight jumps.
    pub open spec fn knight_destinations(&self, color: i8, square: int) -> Seq<usize> {
        knight_jumps(self.board@, color, square, 8)
    }

    /// The pseudo-legal destinations of the knight of `color` on `square`.
    pub fn knight_moves(&self, color: i8, square: usize) -> (results: Vec<usize>)
        requires
            self.distances_ready(),
            square < 64,
        ensures
            results@ == self.knight_destinations(color, square as int),
    {
        let mut results: Vec<usize> = Vec::new();
        let directions: [i8; 8] = [-17, -15, -10, -6, 6, 10, 15, 17];
        let bound_checks: [[usize; 2]; 8] = [
            [0, 2],
            [0, 3],
            [2, 0],
            [3, 0],
            [2, 1],
            [3, 1],
            [1, 2],
            [1, 3],
        ];
        for d_idx in 0..8usize
            invariant
                self.distances_ready(),
                square < 64,
                forall|j: int|
                    0 <= j < 8 ==> {
                        &&& (#[trigger] bound_checks@[j])@[0] as int == knight_long(j)
                        &&& bound_checks@[j]@[1] as int == knight_short(j)
                    },
                forall|j: int|
                    0 <= j < 8 ==> square as int + #[trigger] directions@[j] as int
                        == knight_target(square as int, j),
                results@ == knight_jumps(self.board@, color, square as int, d_idx as int),
        {
            let long = bound_checks[d_idx][0];
            let short = bound_checks[d_idx][1];
            if self.edge_counts[square][long] >= 2 && self.edge_counts[square][short] >= 1 {
                proof {
                    lemma_knight_on_board(square as int, d_idx as int);
                }
                let destination = (square as i8 + directions[d_idx]) as usize;
                if !Self::match_color(color, self.board[destination]) {
                    results.push(destination);
                }
            }
            assert(results@ =~= knight_jumps(self.board@, color, square as int, d_idx as int + 1));
        }
        results
    }

    /// The knight never lands anywhere but a knight's jump away: two rows
    /// and one column, or one row and two columns, from where it stands.
    pub proof fn lemma_knight_shape(&self, color: i8, square: int, dest: usize)
        requires
            0 <= square < 64,
            self.knight_destinations(color, square).contains(dest),
        ensures
            dest < 64,
            knight_shape(square, dest as int),
            !same_color(color, self.board@[dest as int]),
    {
        lemma_knight_jumps_shape(self.board@, color, square, 8, dest);
    }
}

} // verus!
