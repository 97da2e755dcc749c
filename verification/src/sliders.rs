//! Sliding pieces: bishop, rook and queen.
//!
//! A slider walks along a direction over empty squares. The first occupied
//! square ends the walk: it is a destination if it holds a piece of the
//! other side, and nothing behind it is.
use vstd::prelude::*;
use vstd::seq_lib::lemma_seq_concat_contains_all_elements;
use crate::chess::{same_color, Chess_Board};
use crate::geometry::{edge_distance, lemma_ray_on_board, ray_square};

verus! {

/// The number of empty squares met in a row when walking from `square` in
/// direction `dir`, counted from the `k`-th step on.
pub open spec fn open_run(board: Seq<i8>, square: int, dir: int, k: int) -> int
    decreases edge_distance(square, dir) + 1 - k,
{
    if 1 <= k <= edge_distance(square, dir) && board[ray_square(square, dir, k)] == 0 {
        1 + open_run(board, square, dir, k + 1)
    } else {
        0
    }
}

/// How many steps a slider of `color` on `square` can take in direction
/// `dir`: over all the empty squares before the first occupied one, and
/// onto that one unless it holds a piece of the slider's own side.
pub open spec fn ray_reach(board: Seq<i8>, color: i8, square: int, dir: int) -> int {
    let run = open_run(board, square, dir, 1);
    if run < edge_distance(square, dir) && !same_color(
        color,
        board[ray_square(square, dir, run + 1)],
    ) {
        run + 1
    } else {
        run
    }
}

/// The destinations of a slider of `color` on `square` in direction
/// `dir`, nearest first.
pub open spec fn ray_moves(board: Seq<i8>, color: i8, square: int, dir: int) -> Seq<usize> {
    Seq::new(
        ray_reach(board, color, square, dir) as nat,
        |i: int| ray_square(square, dir, i + 1) as usize,
    )
}

/// `dest` lies in direction `dir` from `square`, on the board, with only
/// empty squares between the two, and holds no piece of `color`.
pub open spec fn slides_to(board: Seq<i8>, color: i8, square: int, dir: int, dest: usize) -> bool {
    exists|k: int|
        {
            &&& 1 <= k <= edge_distance(square, dir)
            &&& dest as int == #[trigger] ray_square(square, dir, k)
            &&& forall|j: int| 1 <= j < k ==> board[#[trigger] ray_square(square, dir, j)] == 0
            &&& !same_color(color, board[dest as int])
        }
}

/// The run of empty squares from step `k` on stays on the board, holds
/// empty squares only, and ends at the edge or before an occupied square.
pub proof fn lemma_open_run(board: Seq<i8>, square: int, dir: int, k: int)
    requires
        1 <= k <= edge_distance(square, dir) + 1,
    ensures
        0 <= open_run(board, square, dir, k) <= edge_distance(square, dir) + 1 - k,
        forall|j: int|
            k <= j < k + open_run(board, square, dir, k) ==> board[#[trigger] ray_square(
                square,
                dir,
                j,
            )] == 0,
        k + open_run(board, square, dir, k) <= edge_distance(square, dir) ==> board[ray_square(
            square,
            dir,
            k + open_run(board, square, dir, k),
        )] != 0,
    decreases edge_distance(square, dir) + 1 - k,
{
    if k <= edge_distance(square, dir) && board[ray_square(square, dir, k)] == 0 {
        lemma_open_run(board, square, dir, k + 1);
    }
}

/// A slider never goes beyond the first occupied square of a direction,
/// and never onto a square that holds a piece of its own side.
pub proof fn lemma_ray_stops(board: Seq<i8>, color: i8, square: int, dir: int, i: int)
    requires
        0 <= square < 64,
        0 <= dir < 8,
        0 <= i < ray_moves(board, color, square, dir).len(),
    ensures
        i + 1 <= edge_distance(square, dir),
        ray_moves(board, color, square, dir)[i] as int == ray_square(square, dir, i + 1),
        forall|j: int| 1 <= j <= i ==> board[#[trigger] ray_square(square, dir, j)] == 0,
        ray_moves(board, color, square, dir)[i] < 64,
        !same_color(color, board[ray_moves(board, color, square, dir)[i] as int]),
        slides_to(board, color, square, dir, ray_moves(board, color, square, dir)[i]),
{
    crate::geometry::lemma_distance_sums(square);
    lemma_open_run(board, square, dir, 1);
    lemma_ray_on_board(square, dir, i + 1);
    let run = open_run(board, square, dir, 1);
    if i < run {
        assert(board[ray_square(square, dir, i + 1)] == 0);
    }
}

/// Whatever a slider may reach in a direction lies on that line, behind
/// empty squares only, and holds no piece of its own side.
pub proof fn lemma_ray_member(board: Seq<i8>, color: i8, square: int, dir: int, dest: usize)
    requires
        0 <= square < 64,
        0 <= dir < 8,
        ray_moves(board, color, square, dir).contains(dest),
    ensures
        dest < 64,
        slides_to(board, color, square, dir, dest),
{
    let ray = ray_moves(board, color, square, dir);
    let i = choose|i: int| 0 <= i < ray.len() && ray[i] == dest;
    lemma_ray_stops(board, color, square, dir, i);
}

impl Chess_Board {
    /// The destinations of the rook of `color` on `square`: up, down, left
    /// and right, in this order.
    pub open spec fn rook_destinations(&self, color: i8, square: int) -> Seq<usize> {
        ray_moves(self.board@, color, square, 0) + ray_moves(self.board@, color, square, 1)
            + ray_moves(self.board@, color, square, 2) + ray_moves(self.board@, color, square, 3)
    }

    /// The destinations of the bishop of `color` on `square`: up-right,
    /// up-left, down-right and down-left, in this order.
    pub open spec fn bishop_destinations(&self, color: i8, square: int) -> Seq<usize> {
        ray_moves(self.board@, color, square, 5) + ray_moves(self.board@, color, square, 4)
            + ray_moves(self.board@, color, square, 6) + ray_moves(self.board@, color, square, 7)
    }

    /// The destinations of the queen of `color` on `square`: those of a
    /// bishop, then those of a rook.
    pub open spec fn queen_destinations(&self, color: i8, square: int) -> Seq<usize> {
        self.bishop_destinations(color, square) + self.rook_destinations(color, square)
    }

    /// A rook never goes beyond the first occupied square of a row or a
    /// column, and never onto a piece of its own side.
    pub proof fn lemma_rook_stops(&self, color: i8, square: int, dest: usize)
        requires
            0 <= square < 64,
            self.rook_destinations(color, square).contains(dest),
        ensures
            dest < 64,
            exists|dir: int| 0 <= dir < 4 && slides_to(self.board@, color, square, dir, dest),
    {
        let b = self.board@;
        let r0 = ray_moves(b, color, square, 0);
        let r1 = ray_moves(b, color, square, 1);
        let r2 = ray_moves(b, color, square, 2);
        let r3 = ray_moves(b, color, square, 3);
        lemma_seq_concat_contains_all_elements(r0 + r1 + r2, r3, dest);
        lemma_seq_concat_contains_all_elements(r0 + r1, r2, dest);
        lemma_seq_concat_contains_all_elements(r0, r1, dest);
        if r0.contains(dest) {
            lemma_ray_member(b, color, square, 0, dest);
        } else if r1.contains(dest) {
            lemma_ray_member(b, color, square, 1, dest);
        } else if r2.contains(dest) {
            lemma_ray_member(b, color, square, 2, dest);
        } else {
            lemma_ray_member(b, color, square, 3, dest);
        }
    }

    /// A bishop never goes beyond the first occupied square of a diagonal,
    /// and never onto a piece of its own side.
    pub proof fn lemma_bishop_stops(&self, color: i8, square: int, dest: usize)
        requires
            0 <= square < 64,
            self.bishop_destinations(color, square).contains(dest),
        ensures
            dest < 64,
            exists|dir: int| 4 <= dir < 8 && slides_to(self.board@, color, square, dir, dest),
    {
        let b = self.board@;
        let r0 = ray_moves(b, color, square, 5);
        let r1 = ray_moves(b, color, square, 4);
        let r2 = ray_moves(b, color, square, 6);
        let r3 = ray_moves(b, color, square, 7);
        lemma_seq_concat_contains_all_elements(r0 + r1 + r2, r3, dest);
        lemma_seq_concat_contains_all_elements(r0 + r1, r2, dest);
        lemma_seq_concat_contains_all_elements(r0, r1, dest);
        if r0.contains(dest) {
            lemma_ray_member(b, color, square, 5, dest);
        } else if r1.contains(dest) {
            lemma_ray_member(b, color, square, 4, dest);
        } else if r2.contains(dest) {
            lemma_ray_member(b, color, square, 6, dest);
        } else {
            lemma_ray_member(b, color, square, 7, dest);
        }
    }

    /// A queen never goes beyond the first occupied square of a line, and
    /// never onto a piece of its own side.
    pub proof fn lemma_queen_stops(&self, color: i8, square: int, dest: usize)
        requires
            0 <= square < 64,
            self.queen_destinations(color, square).contains(dest),
        ensures
            dest < 64,
            exists|dir: int| 0 <= dir < 8 && slides_to(self.board@, color, square, dir, dest),
    {
        lemma_seq_concat_contains_all_elements(
            self.bishop_destinations(color, square),
            self.rook_destinations(color, square),
            dest,
        );
        if self.bishop_destinations(color, square).contains(dest) {
            self.lemma_bishop_stops(color, square, dest);
        } else {
            self.lemma_rook_stops(color, square, dest);
        }
    }

    fn add_ray(&self, color: i8, square: usize, dir: usize, results: &mut Vec<usize>)
        requires
            self.distances_ready(),
            square < 64,
            dir < 8,
        ensures
            final(results)@ == old(results)@ + ray_moves(
                self.board@,
                color,
                square as int,
                dir as int,
            ),
    {
        let distance: usize = self.edge_counts[square][dir];
        let ghost found = Seq::<usize>::empty();
        let mut s_idx: usize = 0;
        while s_idx < distance
            invariant
                self.distances_ready(),
                square < 64,
                dir < 8,
                s_idx <= distance,
                distance as int == edge_distance(square as int, dir as int),
                open_run(self.board@, square as int, dir as int, 1) == s_idx + open_run(
                    self.board@,
                    square as int,
                    dir as int,
                    s_idx + 1,
                ),
                found.len() == s_idx,
                forall|i: int|
                    0 <= i < s_idx ==> #[trigger] found[i] as int == ray_square(
                        square as int,
                        dir as int,
                        i + 1,
                    ),
                results@ == old(results)@ + found,
            decreases distance - s_idx,
        {
            let destination = self.ray_target(square, dir, s_idx + 1);
            let target_piece = self.board[destination];
            if target_piece != 0 {
                if !Self::match_color(color, target_piece) {
                    results.push(destination);
                    proof {
                        found = found.push(destination);
                    }
                }
                assert(found =~= ray_moves(self.board@, color, square as int, dir as int));
                assert(results@ =~= old(results)@ + found);
                return ;
            }
            results.push(destination);
            proof {
                found = found.push(destination);
                assert(results@ =~= old(results)@ + found);
            }
            s_idx += 1;
        }
        assert(found =~= ray_moves(self.board@, color, square as int, dir as int));
    }

    /// The pseudo-legal destinations of the bishop of `color` on `square`.
    pub fn bishop_moves(&self, color: i8, square: usize) -> (results: Vec<usize>)
        requires
            self.distances_ready(),
            square < 64,
        ensures
            results@ == self.bishop_destinations(color, square as int),
    {
        let mut results: Vec<usize> = Vec::new();
        let directions: [usize; 4] = [5, 4, 6, 7];
        self.add_ray(color, square, directions[0], &mut results);
        self.add_ray(color, square, directions[1], &mut results);
        self.add_ray(color, square, directions[2], &mut results);
        self.add_ray(color, square, directions[3], &mut results);
        assert(results@ =~= self.bishop_destinations(color, square as int));
        results
    }

    /// The pseudo-legal destinations of the rook of `color` on `square`.
    pub fn rook_moves(&self, color: i8, square: usize) -> (results: Vec<usize>)
        requires
            self.distances_ready(),
            square < 64,
        ensures
            results@ == self.rook_destinations(color, square as int),
    {
        let mut results: Vec<usize> = Vec::new();
        let directions: [usize; 4] = [0, 1, 2, 3];
        self.add_ray(color, square, directions[0], &mut results);
        self.add_ray(color, square, directions[1], &mut results);
        self.add_ray(color, square, directions[2], &mut results);
        self.add_ray(color, square, directions[3], &mut results);
        assert(results@ =~= self.rook_destinations(color, square as int));
        results
    }

    /// The pseudo-legal destinations of the queen of `color` on `square`.
    pub fn queen_moves(&self, color: i8, square: usize) -> (results: Vec<usize>)
        requires
            self.distances_ready(),
            square < 64,
        ensures
            results@ == self.queen_destinations(color, square as int),
    {
        let mut results: Vec<usize> = Vec::new();
        let mut diag = self.bishop_moves(color, square);
        let mut orthogonal = self.rook_moves(color, square);
        results.append(&mut diag);
        results.append(&mut orthogonal);
        assert(results@ =~= self.queen_destinations(color, square as int));
        results
    }
}

} // verus!
