//! Square geometry: rows, columns, the eight directions and the distance
//! from a square to the edge of the board along each of them.
//!
//! Squares are numbered `0..64`, left to right and then top to bottom.
//! Directions are numbered `0..8`: up, down, left, right, up-left,
//! up-right, down-right, down-left.
use vstd::prelude::*;

verus! {

/// Row of a square index: `0` is the top row.
pub open spec fn row_of(square: int) -> int {
    square / 8
}

/// Column of a square index: `0` is the leftmost column.
pub open spec fn col_of(square: int) -> int {
    square % 8
}

/// Change of row made by one step in direction `dir`.
pub open spec fn row_step(dir: int) -> int {
    if dir == 0 || dir == 4 || dir == 5 {
        -1
    } else if dir == 1 || dir == 6 || dir == 7 {
        1
    } else {
        0
    }
}

/// Change of column made by one step in direction `dir`.
pub open spec fn col_step(dir: int) -> int {
    if dir == 2 || dir == 4 || dir == 7 {
        -1
    } else if dir == 3 || dir == 5 || dir == 6 {
        1
    } else {
        0
    }
}

/// Change of square index made by one step in direction `dir`.
pub open spec fn step_of(dir: int) -> int {
    8 * row_step(dir) + col_step(dir)
}

pub open spec fn min_int(a: int, b: int) -> int {
    if a < b {
        a
    } else {
        b
    }
}

/// Number of squares between `square` and the edge of the board in
/// direction `dir`: how many steps can be taken without leaving the board.
pub open spec fn edge_distance(square: int, dir: int) -> int {
    let up = row_of(square);
    let down = 7 - row_of(square);
    let left = col_of(square);
    let right = 7 - col_of(square);
    if dir == 0 {
        up
    } else if dir == 1 {
        down
    } else if dir == 2 {
        left
    } else if dir == 3 {
        right
    } else if dir == 4 {
        min_int(up, left)
    } else if dir == 5 {
        min_int(up, right)
    } else if dir == 6 {
        min_int(down, right)
    } else {
        min_int(down, left)
    }
}

/// The square reached from `square` after `k` steps in direction `dir`.
pub open spec fn ray_square(square: int, dir: int, k: int) -> int {
    square + step_of(dir) * k
}

/// A table of distances agrees with the geometry of the board.
pub open spec fn table_matches(table: Seq<[usize; 8]>) -> bool {
    &&& table.len() == 64
    &&& forall|s: int, d: int|
        0 <= s < 64 && 0 <= d < 8 ==> (#[trigger] table[s]@[d]) as int == edge_distance(s, d)
}

/// On every square the distances up and down add up to the seven ranks
/// beside its own, those left and right to the seven files, and each
/// diagonal distance is the smaller of its two straight components.
pub proof fn lemma_distance_sums(square: int)
    requires
        0 <= square < 64,
    ensures
        edge_distance(square, 0) + edge_distance(square, 1) == 7,
        edge_distance(square, 2) + edge_distance(square, 3) == 7,
        edge_distance(square, 4) == min_int(edge_distance(square, 0), edge_distance(square, 2)),
        edge_distance(square, 5) == min_int(edge_distance(square, 0), edge_distance(square, 3)),
        edge_distance(square, 6) == min_int(edge_distance(square, 1), edge_distance(square, 3)),
        edge_distance(square, 7) == min_int(edge_distance(square, 1), edge_distance(square, 2)),
        forall|d: int| 0 <= d < 8 ==> 0 <= #[trigger] edge_distance(square, d) <= 7,
{
}

/// Walking no further than the edge distance stays on the board, and
/// moves the row and the column by the direction's steps.
pub proof fn lemma_ray_on_board(square: int, dir: int, k: int)
    requires
        0 <= square < 64,
        0 <= dir < 8,
        0 <= k <= edge_distance(square, dir),
    ensures
        0 <= ray_square(square, dir, k) < 64,
        row_of(ray_square(square, dir, k)) == row_of(square) + row_step(dir) * k,
        col_of(ray_square(square, dir, k)) == col_of(square) + col_step(dir) * k,
        ray_square(square, dir, k + 1) == ray_square(square, dir, k) + step_of(dir),
{
    let r = row_of(square);
    let c = col_of(square);
    assert(square == 8 * r + c);
    assert(step_of(dir) * (k + 1) == step_of(dir) * k + step_of(dir)) by (nonlinear_arith);
    lemma_unit_scale(row_step(dir), k);
    lemma_unit_scale(col_step(dir), k);
    let rk = row_step(dir) * k;
    let ck = col_step(dir) * k;
    assert(step_of(dir) * k == 8 * rk + ck) by (nonlinear_arith)
        requires
            step_of(dir) == 8 * row_step(dir) + col_step(dir),
            rk == row_step(dir) * k,
            ck == col_step(dir) * k,
    ;
    assert(rk == -k || rk == k || rk == 0);
    assert(ck == -k || ck == k || ck == 0);
    assert(0 <= r + rk <= 7);
    assert(0 <= c + ck <= 7);
    assert(ray_square(square, dir, k) == 8 * (r + rk) + (c + ck));
}

proof fn lemma_unit_scale(s: int, k: int)
    ensures
        s == -1 ==> s * k == -k,
        s == 0 ==> s * k == 0,
        s == 1 ==> s * k == k,
{
    assert(s == -1 ==> s * k == -k) by (nonlinear_arith);
    assert(s == 0 ==> s * k == 0) by (nonlinear_arith);
    assert(s == 1 ==> s * k == k) by (nonlinear_arith);
}

} // verus!
