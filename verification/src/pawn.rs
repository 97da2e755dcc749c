//! Pawn moves: pushes, diagonal captures, promotions and en passant.
//!
//! A destination is a square index, or, for a promotion, the square index
//! plus 200 (knight), 300 (bishop), 400 (rook) or 500 (queen).
use vstd::prelude::*;
use vstd::seq_lib::lemma_seq_concat_contains_all_elements;
use crate::chess::{after_move, same_color, Chess_Board, Move};
use crate::geometry::{col_of, col_step, edge_distance, lemma_ray_on_board, row_of, step_of};

verus! {

/// The direction in which the pawns of `color` advance: the negative side
/// moves up the board, the other side down.
pub open spec fn forward_dir(color: i8) -> int {
    if color < 0 {
        0
    } else {
        1
    }
}

/// The row on which the pawns of `color` start.
pub open spec fn start_row(color: i8) -> int {
    if color < 0 {
        6
    } else {
        1
    }
}

/// The row on which the pawns of `color` promote.
pub open spec fn promotion_row(color: i8) -> int {
    if color < 0 {
        0
    } else {
        7
    }
}

/// The two diagonals on which the pawns of `color` capture, in the order
/// in which their captures are listed.
pub open spec fn capture_dir(color: i8, i: int) -> int {
    if color < 0 {
        4 + i
    } else {
        6 + i
    }
}

/// The same two diagonals in the order in which en passant is tried.
pub open spec fn passing_dir(color: i8, i: int) -> int {
    if color < 0 {
        4 + i
    } else {
        7 - i
    }
}

/// The four promotion encodings of the target square `target`.
pub open spec fn promotions(target: int) -> Seq<usize> {
    seq![
        (200 + target) as usize,
        (300 + target) as usize,
        (400 + target) as usize,
        (500 + target) as usize,
    ]
}

/// The destination `dest` names the square `target`: it is that square,
/// plain, or one of its four promotion encodings.
pub open spec fn names_square(dest: int, target: int) -> bool {
    dest == target || dest == 200 + target || dest == 300 + target || dest == 400 + target || dest
        == 500 + target
}

/// `names_square` as a test on destinations.
pub open spec fn naming(target: int) -> spec_fn(usize) -> bool {
    |dest: usize| names_square(dest as int, target)
}

/// Pushes of the pawn of `color` on `square`: the square ahead if it is
/// empty, replaced by its four promotions on the promotion row, and from
/// the start row the square after it as well if that is empty too.
pub open spec fn pawn_pushes(board: Seq<i8>, color: i8, square: int) -> Seq<usize> {
    let fwd = forward_dir(color);
    let ahead = square + step_of(fwd);
    if edge_distance(square, fwd) < 1 || board[ahead] != 0 {
        Seq::empty()
    } else if row_of(ahead) == promotion_row(color) {
        promotions(ahead)
    } else if row_of(square) == start_row(color) && board[ahead + step_of(fwd)] == 0 {
        seq![ahead as usize, (ahead + step_of(fwd)) as usize]
    } else {
        seq![ahead as usize]
    }
}

/// The push that counts as an attack: the four promotions of the square
/// ahead, where that square is empty and lies on the promotion row.
pub open spec fn pawn_promotion_push(board: Seq<i8>, color: i8, square: int) -> Seq<usize> {
    let fwd = forward_dir(color);
    let ahead = square + step_of(fwd);
    if edge_distance(square, fwd) >= 1 && board[ahead] == 0 && row_of(ahead) == promotion_row(
        color,
    ) {
        promotions(ahead)
    } else {
        Seq::empty()
    }
}

/// The capture along the diagonal `dir`: on the promotion row the four
/// promotions of the diagonal square whatever stands there, elsewhere the
/// square itself if a piece of the other side stands on it.
pub open spec fn pawn_capture(board: Seq<i8>, color: i8, square: int, dir: int) -> Seq<usize> {
    let target = square + step_of(dir);
    if edge_distance(square, dir) < 1 {
        Seq::empty()
    } else if row_of(target) == promotion_row(color) {
        promotions(target)
    } else if board[target] != 0 && !same_color(color, board[target]) {
        seq![target as usize]
    } else {
        Seq::empty()
    }
}

/// The last move of the history was a pawn not of `color` that went two
/// rows and landed on `beside`.
pub open spec fn double_push_landed(history: Seq<Move>, color: i8, beside: int) -> bool {
    &&& history.len() >= 1
    &&& (history.last().piece == 1 || history.last().piece == -1)
    &&& !same_color(history.last().piece, color)
    &&& history.last().target as int == beside
    &&& (history.last().origin as int == history.last().target as int + 16
        || history.last().target as int == history.last().origin as int + 16)
}

/// En passant along the diagonal `dir`: the diagonal square, if the last
/// move was a double pawn push of the other side that landed beside
/// `square` in the column of that diagonal.
pub open spec fn pawn_passing(history: Seq<Move>, color: i8, square: int, dir: int) -> Seq<
    usize,
> {
    if edge_distance(square, dir) >= 1 && double_push_landed(
        history,
        color,
        square + col_step(dir),
    ) {
        seq![(square + step_of(dir)) as usize]
    } else {
        Seq::empty()
    }
}

/// All diagonal candidates: both captures, then both en passant tries.
pub open spec fn pawn_diagonals(board: Seq<i8>, history: Seq<Move>, color: i8, square: int) -> Seq<
    usize,
> {
    pawn_capture(board, color, square, capture_dir(color, 0)) + pawn_capture(
        board,
        color,
        square,
        capture_dir(color, 1),
    ) + pawn_passing(history, color, square, passing_dir(color, 0)) + pawn_passing(
        history,
        color,
        square,
        passing_dir(color, 1),
    )
}

/// Where a pawn has a square ahead, its diagonal squares, where they are
/// on the board, lie in the row of that square, one column to either side.
proof fn lemma_diagonal_beside(color: i8, square: int)
    requires
        0 <= square < 64,
    ensures
        forall|d: int|
            (d == capture_dir(color, 0) || d == capture_dir(color, 1)) && #[trigger] edge_distance(
                square,
                d,
            ) >= 1 ==> {
                &&& edge_distance(square, forward_dir(color)) >= 1
                &&& 0 <= square + step_of(d) < 64
                &&& square + step_of(d) == square + step_of(forward_dir(color)) + col_step(d)
                &&& row_of(square + step_of(d)) == row_of(square + step_of(forward_dir(color)))
            },
{
    assert forall|d: int|
        (d == capture_dir(color, 0) || d == capture_dir(color, 1)) && #[trigger] edge_distance(
            square,
            d,
        ) >= 1 implies {
        &&& edge_distance(square, forward_dir(color)) >= 1
        &&& 0 <= square + step_of(d) < 64
        &&& square + step_of(d) == square + step_of(forward_dir(color)) + col_step(d)
        &&& row_of(square + step_of(d)) == row_of(square + step_of(forward_dir(color)))
    } by {
        lemma_ray_on_board(square, d, 1);
        lemma_ray_on_board(square, forward_dir(color), 1);
    }
}

proof fn lemma_filter_keeps_all(dests: Seq<usize>, test: spec_fn(usize) -> bool)
    requires
        forall|i: int| 0 <= i < dests.len() ==> test(#[trigger] dests[i]),
    ensures
        dests.filter(test) == dests,
    decreases dests.len(),
{
    reveal(Seq::filter);
    if dests.len() > 0 {
        lemma_filter_keeps_all(dests.drop_last(), test);
        assert(dests.drop_last().push(dests.last()) =~= dests);
    }
}

proof fn lemma_filter_keeps_none(dests: Seq<usize>, test: spec_fn(usize) -> bool)
    requires
        forall|i: int| 0 <= i < dests.len() ==> !test(#[trigger] dests[i]),
    ensures
        dests.filter(test) == Seq::<usize>::empty(),
    decreases dests.len(),
{
    reveal(Seq::filter);
    if dests.len() > 0 {
        lemma_filter_keeps_none(dests.drop_last(), test);
    }
}

fn push_promotions(results: &mut Vec<usize>, target: usize)
    requires
        target < 64,
    ensures
        final(results)@ == old(results)@ + promotions(target as int),
{
    results.push(200 + target);
    results.push(300 + target);
    results.push(400 + target);
    results.push(500 + target);
    assert(results@ =~= old(results)@ + promotions(target as int));
}

impl Chess_Board {
    /// Every destination of the pawn of `color` on `square`: its pushes,
    /// then its diagonal candidates.
    pub open spec fn pawn_destinations(&self, color: i8, square: int) -> Seq<usize> {
        pawn_pushes(self.board@, color, square) + pawn_diagonals(
            self.board@,
            self.moves@,
            color,
            square,
        )
    }

    /// What the pawn of `color` on `square` attacks: its diagonal
    /// candidates, then the push that promotes.
    pub open spec fn pawn_attacks(&self, color: i8, square: int) -> Seq<usize> {
        pawn_diagonals(self.board@, self.moves@, color, square) + pawn_promotion_push(
            self.board@,
            color,
            square,
        )
    }

    /// When a pawn has gone two rows from its start row and stands beside
    /// a pawn of the other side, that pawn's destinations hold the square
    /// that the first pawn passed over.
    pub proof fn lemma_double_push_can_be_taken(
        before: Chess_Board,
        after: Chess_Board,
        origin: int,
        target: int,
        square: int,
    )
        requires
            0 <= origin < 64,
            0 <= target < 64,
            0 <= square < 64,
            after_move(before, after, origin, target),
            before.board@[origin] == 1 || before.board@[origin] == -1,
            row_of(origin) == start_row(before.board@[origin]),
            target == origin + 2 * step_of(forward_dir(before.board@[origin])),
            row_of(square) == row_of(target),
            col_of(square) == col_of(target) + 1 || col_of(square) == col_of(target) - 1,
            after.board@[square] == -before.board@[origin],
        ensures
            after.pawn_destinations(after.board@[square], square).contains(
                (origin + step_of(forward_dir(before.board@[origin]))) as usize,
            ),
    {
        let pusher = before.board@[origin];
        let color = after.board@[square];
        let passed = (origin + step_of(forward_dir(pusher))) as usize;
        let toward: int = if col_of(target) > col_of(square) { 1 } else { 0 };
        let dir = if color < 0 { 4 + toward } else { 7 - toward };
        assert(dir == passing_dir(color, toward));
        assert(after.moves@.last().piece == pusher);
        assert(double_push_landed(after.moves@, color, target));
        assert(square + col_step(dir) == target);
        let took = pawn_passing(after.moves@, color, square, dir);
        assert(took[0] == passed);
        assert(took.contains(passed));
        let b = after.board@;
        let h = after.moves@;
        let c0 = pawn_capture(b, color, square, capture_dir(color, 0));
        let c1 = pawn_capture(b, color, square, capture_dir(color, 1));
        let e0 = pawn_passing(h, color, square, passing_dir(color, 0));
        let e1 = pawn_passing(h, color, square, passing_dir(color, 1));
        lemma_seq_concat_contains_all_elements(c0 + c1 + e0, e1, passed);
        lemma_seq_concat_contains_all_elements(c0 + c1, e0, passed);
        lemma_seq_concat_contains_all_elements(
            pawn_pushes(b, color, square),
            pawn_diagonals(b, h, color, square),
            passed,
        );
    }

    /// En passant lasts for one move: after any move that is not a pawn of
    /// the other side going two rows, a pawn's destinations are its pushes
    /// and its two captures, and nothing else.
    pub proof fn lemma_passing_expires(
        before: Chess_Board,
        after: Chess_Board,
        origin: int,
        target: int,
        color: i8,
        square: int,
    )
        requires
            0 <= origin < 64,
            0 <= target < 64,
            after_move(before, after, origin, target),
            !((before.board@[origin] == 1 || before.board@[origin] == -1) && !same_color(
                before.board@[origin],
                color,
            ) && (target == origin + 16 || origin == target + 16)),
        ensures
            after.pawn_destinations(color, square) == pawn_pushes(after.board@, color, square)
                + pawn_capture(after.board@, color, square, capture_dir(color, 0)) + pawn_capture(
                after.board@,
                color,
                square,
                capture_dir(color, 1),
            ),
    {
        let b = after.board@;
        let h = after.moves@;
        assert(h.last().origin == origin && h.last().target == target);
        assert(h.last().piece == b[target]);
        assert(forall|beside: int| !double_push_landed(h, color, beside));
        assert(pawn_passing(h, color, square, passing_dir(color, 0)) =~= Seq::empty());
        assert(pawn_passing(h, color, square, passing_dir(color, 1)) =~= Seq::empty());
        assert(after.pawn_destinations(color, square) =~= pawn_pushes(b, color, square)
            + pawn_capture(b, color, square, capture_dir(color, 0)) + pawn_capture(
            b,
            color,
            square,
            capture_dir(color, 1),
        ));
    }

    /// A pawn that can push onto its promotion row has, for the square
    /// ahead, the four promotion encodings, each once, and no plain
    /// destination.
    pub proof fn lemma_push_promotes(&self, color: i8, square: int)
        requires
            0 <= square < 64,
            edge_distance(square, forward_dir(color)) >= 1,
            row_of(square + step_of(forward_dir(color))) == promotion_row(color),
            self.board@[square + step_of(forward_dir(color))] == 0,
        ensures
            self.pawn_destinations(color, square).filter(
                naming(square + step_of(forward_dir(color))),
            ) == promotions(square + step_of(forward_dir(color))),
    {
        let b = self.board@;
        let h = self.moves@;
        let ahead = square + step_of(forward_dir(color));
        let test = naming(ahead);
        let pushes = pawn_pushes(b, color, square);
        let c0 = pawn_capture(b, color, square, capture_dir(color, 0));
        let c1 = pawn_capture(b, color, square, capture_dir(color, 1));
        let e0 = pawn_passing(h, color, square, passing_dir(color, 0));
        let e1 = pawn_passing(h, color, square, passing_dir(color, 1));
        lemma_ray_on_board(square, forward_dir(color), 1);
        lemma_diagonal_beside(color, square);
        assert(pushes == promotions(ahead));
        lemma_filter_keeps_all(pushes, test);
        lemma_filter_keeps_none(c0, test);
        lemma_filter_keeps_none(c1, test);
        lemma_filter_keeps_none(e0, test);
        lemma_filter_keeps_none(e1, test);
        Seq::filter_distributes_over_add(pushes, c0 + c1 + e0 + e1, test);
        Seq::filter_distributes_over_add(c0 + c1 + e0, e1, test);
        Seq::filter_distributes_over_add(c0 + c1, e0, test);
        Seq::filter_distributes_over_add(c0, c1, test);
        assert(pushes + Seq::<usize>::empty() =~= pushes);
    }

    /// A pawn whose capture lands on its promotion row has, for that
    /// square, the four promotion encodings, each once, and no plain
    /// destination, unless the last move of the history allows en passant
    /// onto that very square.
    pub proof fn lemma_capture_promotes(&self, color: i8, square: int, i: int)
        requires
            0 <= square < 64,
            i == 0 || i == 1,
            edge_distance(square, capture_dir(color, i)) >= 1,
            row_of(square + step_of(capture_dir(color, i))) == promotion_row(color),
            !double_push_landed(self.moves@, color, square + col_step(capture_dir(color, i))),
        ensures
            self.pawn_destinations(color, square).filter(
                naming(square + step_of(capture_dir(color, i))),
            ) == promotions(square + step_of(capture_dir(color, i))),
    {
        let b = self.board@;
        let h = self.moves@;
        let target = square + step_of(capture_dir(color, i));
        let test = naming(target);
        let pushes = pawn_pushes(b, color, square);
        let c0 = pawn_capture(b, color, square, capture_dir(color, 0));
        let c1 = pawn_capture(b, color, square, capture_dir(color, 1));
        let e0 = pawn_passing(h, color, square, passing_dir(color, 0));
        let e1 = pawn_passing(h, color, square, passing_dir(color, 1));
        lemma_ray_on_board(square, capture_dir(color, i), 1);
        lemma_ray_on_board(square, forward_dir(color), 1);
        lemma_diagonal_beside(color, square);
        lemma_filter_keeps_none(pushes, test);
        if i == 0 {
            lemma_filter_keeps_all(c0, test);
            lemma_filter_keeps_none(c1, test);
        } else {
            lemma_filter_keeps_none(c0, test);
            lemma_filter_keeps_all(c1, test);
        }
        lemma_filter_keeps_none(e0, test);
        lemma_filter_keeps_none(e1, test);
        Seq::filter_distributes_over_add(pushes, c0 + c1 + e0 + e1, test);
        Seq::filter_distributes_over_add(c0 + c1 + e0, e1, test);
        Seq::filter_distributes_over_add(c0 + c1, e0, test);
        Seq::filter_distributes_over_add(c0, c1, test);
        assert(self.pawn_destinations(color, square).filter(test) =~= promotions(target));
    }

    fn add_capture(&self, color: i8, square: usize, dir: usize, results: &mut Vec<usize>)
        requires
            self.distances_ready(),
            square < 64,
            4 <= dir < 8,
        ensures
            final(results)@ == old(results)@ + pawn_capture(
                self.board@,
                color,
                square as int,
                dir as int,
            ),
    {
        let promotion_row: usize = if color < 0 { 0 } else { 7 };
        if self.edge_counts[square][dir] > 0 {
            let capture_square = self.neighbor(square, dir);
            if Self::get_row(capture_square) == promotion_row {
                push_promotions(results, capture_square);
            } else if self.board[capture_square] != 0 && !Self::match_color(
                color,
                self.board[capture_square],
            ) {
                results.push(capture_square);
                assert(results@ =~= old(results)@ + seq![capture_square]);
            } else {
                assert(results@ =~= old(results)@ + Seq::<usize>::empty());
            }
        } else {
            assert(results@ =~= old(results)@ + Seq::<usize>::empty());
        }
    }

    fn add_passing(&self, color: i8, square: usize, dir: usize, results: &mut Vec<usize>)
        requires
            self.distances_ready(),
            square < 64,
            4 <= dir < 8,
        ensures
            final(results)@ == old(results)@ + pawn_passing(
                self.moves@,
                color,
                square as int,
                dir as int,
            ),
    {
        let side: usize = if dir == 4 || dir == 7 { 2 } else { 3 };
        if self.moves.len() >= 1 && self.edge_counts[square][dir] > 0 {
            let last_move: &Move = &self.moves[self.moves.len() - 1];
            let ep_square = self.neighbor(square, dir);
            let neighbor_square = self.neighbor(square, side);
            if (last_move.piece == 1 || last_move.piece == -1) && !Self::match_color(
                last_move.piece,
                color,
            ) && last_move.target == neighbor_square && ((last_move.target >= 16
                && last_move.target - 16 == last_move.origin) || (last_move.origin >= 16
                && last_move.origin - 16 == last_move.target)) {
                results.push(ep_square);
                assert(results@ =~= old(results)@ + seq![ep_square]);
            } else {
                assert(results@ =~= old(results)@ + Seq::<usize>::empty());
            }
        } else {
            assert(results@ =~= old(results)@ + Seq::<usize>::empty());
        }
    }

    fn add_diagonals(&self, color: i8, square: usize, results: &mut Vec<usize>)
        requires
            self.distances_ready(),
            square < 64,
        ensures
            final(results)@ == old(results)@ + pawn_diagonals(
                self.board@,
                self.moves@,
                color,
                square as int,
            ),
    {
        let directions: [usize; 2] = if color < 0 { [4, 5] } else { [6, 7] };
        let ep_directions: [usize; 2] = if color < 0 { [4, 5] } else { [7, 6] };
        self.add_capture(color, square, directions[0], results);
        self.add_capture(color, square, directions[1], results);
        self.add_passing(color, square, ep_directions[0], results);
        self.add_passing(color, square, ep_directions[1], results);
        assert(results@ =~= old(results)@ + pawn_diagonals(
            self.board@,
            self.moves@,
            color,
            square as int,
        ));
    }

    /// The pseudo-legal destinations of the pawn of `color` on `square`.
    pub fn pawn_moves(&self, color: i8, square: usize) -> (results: Vec<usize>)
        requires
            self.distances_ready(),
            square < 64,
        ensures
            results@ == self.pawn_destinations(color, square as int),
    {
        let start_row: usize = if color < 0 { 6 } else { 1 };
        let promotion_row: usize = if color < 0 { 0 } else { 7 };
        let forward: usize = if color < 0 { 0 } else { 1 };
        let mut results: Vec<usize> = Vec::new();
        if self.edge_counts[square][forward] > 0 {
            let square_in_front = self.neighbor(square, forward);
            if self.board[square_in_front] == 0 {
                if Self::get_row(square_in_front) == promotion_row {
                    push_promotions(&mut results, square_in_front);
                } else {
                    results.push(square_in_front);
                    if Self::get_row(square) == start_row {
                        let second = self.neighbor(square_in_front, forward);
                        if self.board[second] == 0 {
                            results.push(second);
                        }
                    }
                }
            }
        }
        assert(results@ =~= pawn_pushes(self.board@, color, square as int));
        self.add_diagonals(color, square, &mut results);
        results
    }

    /// The squares that the pawn of `color` on `square` attacks. A push
    /// that promotes counts as an attack.
    pub fn pawn_captures(&self, color: i8, square: usize) -> (results: Vec<usize>)
        requires
            self.distances_ready(),
            square < 64,
        ensures
            results@ == self.pawn_attacks(color, square as int),
    {
        let promotion_row: usize = if color < 0 { 0 } else { 7 };
        let forward: usize = if color < 0 { 0 } else { 1 };
        let mut results: Vec<usize> = Vec::new();
        self.add_diagonals(color, square, &mut results);
        let ghost diagonals = results@;
        if self.edge_counts[square][forward] > 0 {
            let square_in_front = self.neighbor(square, forward);
            if self.board[square_in_front] == 0 && Self::get_row(square_in_front)
                == promotion_row {
                push_promotions(&mut results, square_in_front);
            }
        }
        assert(results@ =~= diagonals + pawn_promotion_push(self.board@, color, square as int));
        assert(diagonals =~= pawn_diagonals(self.board@, self.moves@, color, square as int));
        results
    }
}

} // verus!
