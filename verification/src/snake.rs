//! The snake: an ordered body of grid cells, a heading, and a
//! pending-growth flag.
//!
//! The body is kept head-first: index 0 is the head, the last index the
//! tail. Between moves every pair of consecutive segments is one unit step
//! apart and the segments behind the head are pairwise distinct; the head
//! itself may come to overlap the body, which is exactly the losing
//! condition that `collides_with_self` detects.

use vstd::prelude::*;

use crate::grid::Direction;
use crate::grid::OutOfBounds;
use crate::grid::Point;
use crate::grid::adjacent;
use crate::grid::can_move;
use crate::grid::lemma_consecutive_moves_adjacent;
use crate::grid::lemma_distinct_moves_distinct;
use crate::grid::moved;
use crate::grid::opposite_dir;

verus! {

/// The snake's body after one successful step along `dir`: the shifted head
/// is put in front and, unless the snake is digesting, the tail cell is
/// dropped.
pub open spec fn advanced_body(body: Seq<Point>, dir: Direction, digesting: bool) -> Seq<Point> {
    let new_head = moved(body[0], dir, 1);
    if digesting {
        seq![new_head] + body
    } else {
        seq![new_head] + body.drop_last()
    }
}

pub struct Snake {
    body: Vec<Point>,
    direction: Direction,
    digesting: bool,
}

impl Snake {
    /// The body as a sequence of cells, head first.
    pub closed spec fn body_view(&self) -> Seq<Point> {
        self.body@
    }

    /// The current heading.
    pub closed spec fn direction_spec(&self) -> Direction {
        self.direction
    }

    /// Whether the last meal is still pending: the next advance keeps the
    /// tail and grows the body by one.
    pub closed spec fn digesting_spec(&self) -> bool {
        self.digesting
    }

    /// Well-formedness between moves: the body is non-empty, consecutive
    /// segments are one unit step apart, and the segments behind the head
    /// are pairwise distinct.
    pub open spec fn wf(&self) -> bool {
        &&& self.body_view().len() >= 1
        &&& forall|i: int|
            0 <= i < self.body_view().len() - 1 ==> adjacent(
                #[trigger] self.body_view()[i],
                self.body_view()[i + 1],
            )
        &&& forall|i: int, j: int|
            1 <= i < j < self.body_view().len() ==> #[trigger] self.body_view()[i]
                != #[trigger] self.body_view()[j]
    }

    /// All segments, the head included, are pairwise distinct: the snake
    /// does not overlap itself anywhere.
    pub open spec fn no_overlap(&self) -> bool {
        forall|i: int, j: int|
            0 <= i < j < self.body_view().len() ==> #[trigger] self.body_view()[i]
                != #[trigger] self.body_view()[j]
    }

    /// The head occupies the same cell as some segment behind it.
    pub open spec fn self_collision(&self) -> bool {
        exists|j: int|
            1 <= j < self.body_view().len() && #[trigger] self.body_view()[j]
                == self.body_view()[0]
    }

    /// Builds a snake whose head is at `start` and whose `length` segments
    /// trail directly behind the head, against `direction`: segment `i` is
    /// `start` shifted `i` steps the opposite way.
    ///
    /// Fails with `OutOfBounds` exactly when some trailing segment would
    /// leave the unsigned coordinate range.
    pub fn new(start: Point, length: u16, direction: Direction) -> (r: Result<Snake, OutOfBounds>)
        requires
            length >= 1,
        ensures
            r is Ok <==> (forall|i: int|
                0 <= i < length ==> can_move(start, opposite_dir(direction), i)),
            r is Ok ==> {
                let s = r->Ok_0;
                &&& s.body_view().len() == length
                &&& forall|i: int|
                    0 <= i < length ==> #[trigger] s.body_view()[i] == moved(
                        start,
                        opposite_dir(direction),
                        i,
                    )
                &&& s.direction_spec() == direction
                &&& !s.digesting_spec()
                &&& s.wf()
                &&& s.no_overlap()
            },
            r is Err ==> r->Err_0 == OutOfBounds,
    {
        let opposite = direction.opposite();
        let mut body: Vec<Point> = Vec::new();
        let mut i: u16 = 0;
        while i < length
            invariant
                i <= length,
                body@.len() == i,
                forall|k: int| 0 <= k < i ==> #[trigger] can_move(start, opposite_dir(direction), k),
                forall|k: int|
                    0 <= k < i ==> #[trigger] body@[k] == moved(start, opposite_dir(direction), k),
                opposite == opposite_dir(direction),
            decreases length - i,
        {
            match start.transform(opposite, i) {
                Ok(p) => body.push(p),
                Err(e) => {
                    return Err(e);
                },
            }
            i += 1;
        }
        let snake = Snake { body, direction, digesting: false };
        proof {
            assert forall|a: int| 0 <= a < snake.body_view().len() - 1 implies adjacent(
                #[trigger] snake.body_view()[a],
                snake.body_view()[a + 1],
            ) by {
                assert(can_move(start, opposite_dir(direction), a));
                assert(can_move(start, opposite_dir(direction), a + 1));
                assert(snake.body_view()[a] == moved(start, opposite_dir(direction), a));
                assert(snake.body_view()[a + 1] == moved(start, opposite_dir(direction), a + 1));
                lemma_consecutive_moves_adjacent(start, opposite_dir(direction), a);
            }
            assert forall|a: int, b: int|
                0 <= a < b < snake.body_view().len() implies #[trigger] snake.body_view()[a]
                != #[trigger] snake.body_view()[b] by {
                assert(can_move(start, opposite_dir(direction), a));
                assert(can_move(start, opposite_dir(direction), b));
                assert(snake.body_view()[a] == moved(start, opposite_dir(direction), a));
                assert(snake.body_view()[b] == moved(start, opposite_dir(direction), b));
                lemma_distinct_moves_distinct(start, opposite_dir(direction), a, b);
            }
        }
        Ok(snake)
    }

    /// The head cell.
    pub fn head(&self) -> (r: Point)
        requires
            self.body_view().len() >= 1,
        ensures
            r == self.body_view()[0],
    {
        self.body[0]
    }

    /// The current heading.
    pub fn direction(&self) -> (r: Direction)
        ensures
            r == self.direction_spec(),
    {
        self.direction
    }

    /// Whether the next advance will keep the tail and grow the body.
    pub fn is_digesting(&self) -> (r: bool)
        ensures
            r == self.digesting_spec(),
    {
        self.digesting
    }

    /// The body as a vector of cells, head first.
    pub fn body(&self) -> (r: &Vec<Point>)
        ensures
            r@ == self.body_view(),
    {
        &self.body
    }

    /// Whether some segment occupies `point`.
    pub fn contains(&self, point: Point) -> (r: bool)
        ensures
            r == self.body_view().contains(point),
    {
        let mut i: usize = 0;
        while i < self.body.len()
            invariant
                i <= self.body_view().len(),
                forall|k: int| 0 <= k < i ==> #[trigger] self.body_view()[k] != point,
            decreases self.body_view().len() - i,
        {
            if self.body[i] == point {
                return true;
            }
            i += 1;
        }
        false
    }

    /// Updates the heading, unless the request is the exact opposite of the
    /// current heading, in which case it is silently ignored: a 180-degree
    /// reversal would drive the head straight into the neck.
    pub fn set_direction(&mut self, new_direction: Direction)
        ensures
            final(self).body_view() == old(self).body_view(),
            final(self).digesting_spec() == old(self).digesting_spec(),
            final(self).direction_spec() == (if new_direction == opposite_dir(
                old(self).direction_spec(),
            ) {
                old(self).direction_spec()
            } else {
                new_direction
            }),
    {
        if !(new_direction == self.direction.opposite()) {
            self.direction = new_direction;
        }
    }

    /// Marks the last meal as pending so that the next advance keeps the
    /// tail and grows the body by one.
    pub fn begin_digesting(&mut self)
        ensures
            final(self).body_view() == old(self).body_view(),
            final(self).direction_spec() == old(self).direction_spec(),
            final(self).digesting_spec(),
    {
        self.digesting = true;
    }

    /// Moves the snake one step along its heading: the shifted head is put
    /// in front; the tail is kept when a meal is pending (the body grows by
    /// one and the flag resets), otherwise the tail is dropped (the length
    /// is unchanged).
    ///
    /// Fails with `OutOfBounds`, leaving the snake untouched, exactly when
    /// the shifted head would leave the unsigned coordinate range.
    pub fn advance(&mut self) -> (r: Result<(), OutOfBounds>)
        requires
            old(self).body_view().len() >= 1,
        ensures
            r is Ok <==> can_move(old(self).body_view()[0], old(self).direction_spec(), 1),
            r is Err ==> *final(self) == *old(self) && r->Err_0 == OutOfBounds,
            r is Ok ==> final(self).body_view() == advanced_body(
                old(self).body_view(),
                old(self).direction_spec(),
                old(self).digesting_spec(),
            ),
            r is Ok ==> final(self).body_view().len() == old(self).body_view().len() + (
            if old(self).digesting_spec() {
                1int
            } else {
                0int
            }),
            r is Ok ==> final(self).body_view()[0] == moved(
                old(self).body_view()[0],
                old(self).direction_spec(),
                1,
            ),
            r is Ok ==> !final(self).digesting_spec(),
            final(self).direction_spec() == old(self).direction_spec(),
            r is Ok && old(self).wf() && old(self).no_overlap() ==> final(self).wf(),
    {
        let head = self.body[0];
        let new_head = match head.transform(self.direction, 1) {
            Ok(p) => p,
            Err(e) => {
                return Err(e);
            },
        };
        self.body.insert(0, new_head);
        if self.digesting {
            self.digesting = false;
        } else {
            self.body.pop();
        }
        proof {
            assert(self.body_view() =~= advanced_body(
                old(self).body_view(),
                old(self).direction_spec(),
                old(self).digesting_spec(),
            ));
            if old(self).wf() && old(self).no_overlap() {
                lemma_consecutive_moves_adjacent(old(self).body_view()[0], old(self).direction_spec(), 0);
                assert forall|i: int| 0 <= i < self.body_view().len() - 1 implies adjacent(
                    #[trigger] self.body_view()[i],
                    self.body_view()[i + 1],
                ) by {
                    if i >= 1 {
                        assert(self.body_view()[i] == old(self).body_view()[i - 1]);
                        assert(self.body_view()[i + 1] == old(self).body_view()[i]);
                    } else {
                        assert(moved(old(self).body_view()[0], old(self).direction_spec(), 0)
                            == old(self).body_view()[0]);
                    }
                }
            }
        }
        Ok(())
    }

    /// Whether the head occupies the same cell as some segment behind it.
    pub fn collides_with_self(&self) -> (r: bool)
        requires
            self.body_view().len() >= 1,
        ensures
            r == self.self_collision(),
    {
        let head = self.body[0];
        let mut j: usize = 1;
        while j < self.body.len()
            invariant
                1 <= j <= self.body_view().len(),
                self.body_view().len() >= 1,
                head == self.body_view()[0],
                forall|k: int| 1 <= k < j ==> #[trigger] self.body_view()[k] != self.body_view()[0],
            decreases self.body_view().len() - j,
        {
            if self.body[j] == head {
                return true;
            }
            j += 1;
        }
        false
    }
}

/// A head collision is exactly a duplicate pair of segments somewhere in
/// the body, provided the segments behind the head are pairwise distinct
/// (as they are between moves, by `wf`).
pub proof fn lemma_self_collision_iff_duplicate(s: &Snake)
    requires
        s.body_view().len() >= 1,
        forall|i: int, j: int|
            1 <= i < j < s.body_view().len() ==> #[trigger] s.body_view()[i]
                != #[trigger] s.body_view()[j],
    ensures
        s.self_collision() <==> (exists|i: int, j: int|
            0 <= i < j < s.body_view().len() && #[trigger] s.body_view()[i]
                == #[trigger] s.body_view()[j]),
{
    if s.self_collision() {
        let j = choose|j: int|
            1 <= j < s.body_view().len() && #[trigger] s.body_view()[j] == s.body_view()[0];
        assert(s.body_view()[0] == s.body_view()[j]);
    }
    if exists|i: int, j: int|
        0 <= i < j < s.body_view().len() && #[trigger] s.body_view()[i]
            == #[trigger] s.body_view()[j] {
        let (i, j) = choose|i: int, j: int|
            0 <= i < j < s.body_view().len() && #[trigger] s.body_view()[i]
                == #[trigger] s.body_view()[j];
        assert(i == 0);
        assert(s.body_view()[j] == s.body_view()[0]);
    }
}

/// Eating grows the body exactly once: an advance taken while digesting
/// lengthens the body by one and clears the flag, and the advance after it
/// leaves the length unchanged.
pub proof fn lemma_food_grows_body_once(body: Seq<Point>, dir: Direction)
    requires
        body.len() >= 1,
    ensures
        advanced_body(body, dir, true).len() == body.len() + 1,
        advanced_body(advanced_body(body, dir, true), dir, false).len() == body.len() + 1,
{
}

} // verus!
