//! Players, squares given by row and column, and directions that can be
//! added to squares and to each other.
use vstd::prelude::*;

verus! {

/// A side of the game. `Neither` stands for an empty square, or for a game
/// that nobody won.
#[derive(Clone, Copy, Debug, PartialEq, Eq, Structural)]
pub enum Player {
    Neither,
    White,
    Black,
}

impl Player {
    /// The other side. `Neither` has no opponent but itself.
    pub open spec fn spec_opponent(self) -> Player {
        match self {
            Player::Neither => Player::Neither,
            Player::White => Player::Black,
            Player::Black => Player::White,
        }
    }

    /// The other side.
    pub fn opponent(&self) -> (other: Self)
        ensures
            other == self.spec_opponent(),
            other.spec_opponent() == *self,
    {
        match self {
            Self::Neither => Self::Neither,
            Self::White => Self::Black,
            Self::Black => Self::White,
        }
    }
}

/// A square of the board, by its row and its column.
#[derive(Clone, Copy, Debug)]
pub struct Square {
    pub row: usize,
    pub col: usize,
}

impl Square {
    pub fn new(row: usize, col: usize) -> (square: Self)
        ensures
            square.row == row,
            square.col == col,
    {
        Square { row, col }
    }
}

impl PartialEq for Square {
    fn eq(&self, other: &Self) -> (same: bool) {
        (self.row == other.row) && (self.col == other.col)
    }
}

impl vstd::std_specs::cmp::PartialEqSpecImpl for Square {
    open spec fn obeys_eq_spec() -> bool {
        true
    }

    open spec fn eq_spec(&self, other: &Self) -> bool {
        (self.row == other.row) && (self.col == other.col)
    }
}

/// A step on the board: so many rows down and so many columns to the
/// right, either of them negative for the other way.
#[derive(Clone, Copy, Debug)]
pub struct Direction {
    pub d_row: i8,
    pub d_col: i8,
}

impl Direction {
    pub fn new(d_row: i8, d_col: i8) -> (direction: Self)
        ensures
            direction.d_row == d_row,
            direction.d_col == d_col,
    {
        Direction { d_row, d_col }
    }
}

/// The square `direction` away from `square`.
pub open spec fn shifted(square: Square, direction: Direction) -> Square {
    Square {
        row: (square.row + direction.d_row) as usize,
        col: (square.col + direction.d_col) as usize,
    }
}

/// The square `direction` away from `square` can be computed: the
/// coordinates of both squares lie between 0 and 127.
pub open spec fn can_shift(square: Square, direction: Direction) -> bool {
    &&& square.row <= 127
    &&& square.col <= 127
    &&& 0 <= square.row + direction.d_row <= 127
    &&& 0 <= square.col + direction.d_col <= 127
}

impl std::ops::Add<Direction> for Square {
    type Output = Square;

    fn add(self, rhs: Direction) -> (out: Square) {
        Square {
            row: ((self.row as i8) + rhs.d_row) as usize,
            col: ((self.col as i8) + rhs.d_col) as usize,
        }
    }
}

impl vstd::std_specs::ops::AddSpecImpl<Direction> for Square {
    open spec fn obeys_add_spec() -> bool {
        true
    }

    open spec fn add_req(self, rhs: Direction) -> bool {
        can_shift(self, rhs)
    }

    open spec fn add_spec(self, rhs: Direction) -> Square {
        shifted(self, rhs)
    }
}

impl std::ops::Add<Square> for Direction {
    type Output = Square;

    fn add(self, rhs: Square) -> (out: Square) {
        Square {
            row: ((rhs.row as i8) + self.d_row) as usize,
            col: ((rhs.col as i8) + self.d_col) as usize,
        }
    }
}

impl vstd::std_specs::ops::AddSpecImpl<Square> for Direction {
    open spec fn obeys_add_spec() -> bool {
        true
    }

    open spec fn add_req(self, rhs: Square) -> bool {
        can_shift(rhs, self)
    }

    open spec fn add_spec(self, rhs: Square) -> Square {
        shifted(rhs, self)
    }
}

impl std::ops::Add<Direction> for Direction {
    type Output = Direction;

    fn add(self, rhs: Direction) -> (out: Direction) {
        Direction { d_row: self.d_row + rhs.d_row, d_col: self.d_col + rhs.d_col }
    }
}

impl vstd::std_specs::ops::AddSpecImpl<Direction> for Direction {
    open spec fn obeys_add_spec() -> bool {
        true
    }

    open spec fn add_req(self, rhs: Direction) -> bool {
        &&& -128 <= self.d_row + rhs.d_row <= 127
        &&& -128 <= self.d_col + rhs.d_col <= 127
    }

    open spec fn add_spec(self, rhs: Direction) -> Direction {
        Direction {
            d_row: (self.d_row + rhs.d_row) as i8,
            d_col: (self.d_col + rhs.d_col) as i8,
        }
    }
}

/// `direction` taken `times` times.
pub open spec fn scaled(direction: Direction, times: i8) -> Direction {
    Direction {
        d_row: (direction.d_row * times) as i8,
        d_col: (direction.d_col * times) as i8,
    }
}

/// `direction` taken `times` times can be computed: both of its parts
/// stay between -128 and 127.
pub open spec fn can_scale(direction: Direction, times: i8) -> bool {
    &&& -128 <= direction.d_row * times <= 127
    &&& -128 <= direction.d_col * times <= 127
}

impl std::ops::Mul<i8> for Direction {
    type Output = Direction;

    fn mul(self, rhs: i8) -> (out: Direction) {
        Direction { d_row: self.d_row * rhs, d_col: self.d_col * rhs }
    }
}

impl vstd::std_specs::ops::MulSpecImpl<i8> for Direction {
    open spec fn obeys_mul_spec() -> bool {
        true
    }

    open spec fn mul_req(self, rhs: i8) -> bool {
        can_scale(self, rhs)
    }

    open spec fn mul_spec(self, rhs: i8) -> Direction {
        scaled(self, rhs)
    }
}

impl std::ops::Mul<Direction> for i8 {
    type Output = Direction;

    fn mul(self, rhs: Direction) -> (out: Direction) {
        Direction { d_row: rhs.d_row * self, d_col: rhs.d_col * self }
    }
}

impl vstd::std_specs::ops::MulSpecImpl<Direction> for i8 {
    open spec fn obeys_mul_spec() -> bool {
        true
    }

    open spec fn mul_req(self, rhs: Direction) -> bool {
        can_scale(rhs, self)
    }

    open spec fn mul_spec(self, rhs: Direction) -> Direction {
        scaled(rhs, self)
    }
}

} // verus!
