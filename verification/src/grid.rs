//! Grid coordinates and four-way headings.
//!
//! A `Point` is an unsigned cell coordinate; `transform` shifts it a number
//! of unit steps along a `Direction` and reports `OutOfBounds` instead of
//! wrapping when the shifted coordinate would leave the unsigned range.

use vstd::prelude::*;

verus! {

/// A cell on the grid. Coordinates are unsigned; a point placed on a board
/// of size `width x height` lies in `[0, width) x [0, height)`.
#[derive(Debug, Clone, Copy, PartialEq, Eq, Hash, Structural)]
pub struct Point {
    pub x: u16,
    pub y: u16,
}

/// One of the four headings the snake can travel in.
#[derive(Debug, Clone, Copy, PartialEq, Eq, Structural)]
pub enum Direction {
    Up,
    Down,
    Right,
    Left,
}

/// A coordinate transform would leave the unsigned coordinate range:
/// the move is rejected, never silently wrapped.
#[derive(Debug, Clone, Copy, PartialEq, Eq, Structural)]
pub struct OutOfBounds;

/// The heading that points the other way.
pub open spec fn opposite_dir(d: Direction) -> Direction {
    match d {
        Direction::Up => Direction::Down,
        Direction::Down => Direction::Up,
        Direction::Right => Direction::Left,
        Direction::Left => Direction::Right,
    }
}

/// The x coordinate of `p` shifted `n` unit steps along `d`, as an
/// unbounded integer (negative when the shift runs off the left edge).
pub open spec fn moved_x(p: Point, d: Direction, n: int) -> int {
    match d {
        Direction::Left => p.x - n,
        Direction::Right => p.x + n,
        _ => p.x as int,
    }
}

/// The y coordinate of `p` shifted `n` unit steps along `d`. The y axis
/// grows downward, as on a terminal screen: `Down` adds, `Up` subtracts.
pub open spec fn moved_y(p: Point, d: Direction, n: int) -> int {
    match d {
        Direction::Up => p.y - n,
        Direction::Down => p.y + n,
        _ => p.y as int,
    }
}

/// Both shifted coordinates stay in the unsigned coordinate range.
pub open spec fn can_move(p: Point, d: Direction, n: int) -> bool {
    &&& 0 <= moved_x(p, d, n) <= u16::MAX
    &&& 0 <= moved_y(p, d, n) <= u16::MAX
}

/// The point `p` shifted `n` unit steps along `d`; meaningful when
/// `can_move(p, d, n)` holds.
pub open spec fn moved(p: Point, d: Direction, n: int) -> Point {
    Point { x: moved_x(p, d, n) as u16, y: moved_y(p, d, n) as u16 }
}

/// Two cells that differ by exactly one unit step (Manhattan distance 1).
pub open spec fn adjacent(a: Point, b: Point) -> bool {
    ||| a.x == b.x && (a.y - b.y == 1 || b.y - a.y == 1)
    ||| a.y == b.y && (a.x - b.x == 1 || b.x - a.x == 1)
}

impl Point {
    pub fn new(x: u16, y: u16) -> (r: Self)
        ensures
            r == (Point { x, y }),
    {
        Self { x, y }
    }

    /// The point shifted `times` unit steps along `direction`.
    ///
    /// Fails with `OutOfBounds` exactly when a shifted coordinate would
    /// leave the unsigned range; the point is never wrapped or truncated.
    pub fn transform(&self, direction: Direction, times: u16) -> (r: Result<Self, OutOfBounds>)
        ensures
            r is Ok <==> can_move(*self, direction, times as int),
            r is Ok ==> r->Ok_0 == moved(*self, direction, times as int),
            r is Err ==> r->Err_0 == OutOfBounds,
    {
        let (dx, dy): (i32, i32) = match direction {
            Direction::Down => (0, times as i32),
            Direction::Up => (0, -(times as i32)),
            Direction::Left => (-(times as i32), 0),
            Direction::Right => (times as i32, 0),
        };
        let x = match Self::transform_value(self.x, dx) {
            Ok(v) => v,
            Err(e) => {
                return Err(e);
            },
        };
        let y = match Self::transform_value(self.y, dy) {
            Ok(v) => v,
            Err(e) => {
                return Err(e);
            },
        };
        Ok(Self::new(x, y))
    }

    /// One signed shift of one unsigned coordinate, checked against the
    /// unsigned range.
    fn transform_value(value: u16, by: i32) -> (r: Result<u16, OutOfBounds>)
        ensures
            r is Ok <==> 0 <= value + by <= u16::MAX,
            r is Ok ==> r->Ok_0 == value + by,
            r is Err ==> r->Err_0 == OutOfBounds,
    {
        let shifted: i64 = value as i64 + by as i64;
        if shifted < 0 || shifted > u16::MAX as i64 {
            Err(OutOfBounds)
        } else {
            Ok(shifted as u16)
        }
    }
}

impl Direction {
    /// The heading that points the other way; total, with no failure case.
    pub fn opposite(&self) -> (r: Self)
        ensures
            r == opposite_dir(*self),
    {
        match self {
            Self::Up => Self::Down,
            Self::Right => Self::Left,
            Self::Left => Self::Right,
            Self::Down => Self::Up,
        }
    }
}

/// Taking the opposite of a heading twice gives the heading back:
/// `opposite` is an involution on the closed set of four directions.
pub proof fn lemma_opposite_involutive(d: Direction)
    ensures
        opposite_dir(opposite_dir(d)) == d,
{
}

/// Moving `n` steps along `d` and then `n` steps the opposite way is always
/// possible and returns to the starting point.
pub proof fn lemma_transform_round_trip(p: Point, d: Direction, n: int)
    requires
        can_move(p, d, n),
    ensures
        can_move(moved(p, d, n), opposite_dir(d), n),
        moved(moved(p, d, n), opposite_dir(d), n) == p,
{
}

/// Shifting a point by two consecutive step counts along one heading gives
/// two adjacent cells.
pub proof fn lemma_consecutive_moves_adjacent(p: Point, d: Direction, n: int)
    requires
        can_move(p, d, n),
        can_move(p, d, n + 1),
    ensures
        adjacent(moved(p, d, n), moved(p, d, n + 1)),
{
}

/// Shifting a point by two different step counts along one heading gives
/// two different cells.
pub proof fn lemma_distinct_moves_distinct(p: Point, d: Direction, m: int, n: int)
    requires
        m != n,
        can_move(p, d, m),
        can_move(p, d, n),
    ensures
        moved(p, d, m) != moved(p, d, n),
{
}

} // verus!
