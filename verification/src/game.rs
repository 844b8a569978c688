//! The game: grid dimensions, the snake, at most one food item, a score,
//! a tick counter, and the per-tick state machine.
//!
//! One `tick` consumes one input event and runs the whole step: the heading
//! request is applied (reversals are ignored), the snake advances, wall and
//! self collisions end the game, food on the head cell is eaten, and a new
//! food item is spawned whenever none exists.

use vstd::prelude::*;

use crate::grid::Direction;
use crate::grid::OutOfBounds;
use crate::grid::Point;
use crate::grid::can_move;
use crate::grid::moved;
use crate::grid::moved_x;
use crate::grid::moved_y;
use crate::grid::opposite_dir;
use crate::snake::Snake;
use crate::snake::advanced_body;

verus! {

/// Why a game ended.
#[derive(Debug, Clone, Copy, PartialEq, Eq, Structural)]
pub enum GameOverCause {
    WallCollision,
    SelfCollision,
}

/// The phase of a game. `GameOver` is terminal: a finished game never
/// changes again, and keeps its cause for the caller to display.
#[derive(Debug, Clone, Copy, PartialEq, Eq, Structural)]
pub enum GameState {
    Initializing,
    Running,
    GameOver(GameOverCause),
}

/// One polled input event, handed to `tick` by the caller. A quit request
/// is not a game event: the caller simply stops ticking.
#[derive(Debug, Clone, Copy, PartialEq, Eq, Structural)]
pub enum InputEvent {
    Turn(Direction),
    NoChange,
}

/// Food could not be spawned: every interior cell is occupied by the snake.
#[derive(Debug, Clone, Copy, PartialEq, Eq, Structural)]
pub struct NoFreeCell;

/// The snake's length at the start of every game.
pub const INITIAL_SNAKE_LENGTH: u16 = 5;

/// How many random candidate cells the food spawner tries before it falls
/// back to enumerating the free cells outright.
pub const SPAWN_ATTEMPTS: u16 = 100;

/// The cell lies on the board: in `[0, width) x [0, height)`.
pub open spec fn in_bounds(p: Point, width: u16, height: u16) -> bool {
    p.x < width && p.y < height
}

/// The cell lies in the board's interior `[1, width-2] x [1, height-2]`;
/// the border cells are reserved for walls, so food is never put there.
pub open spec fn in_interior(p: Point, width: u16, height: u16) -> bool {
    1 <= p.x && p.x + 1 < width && 1 <= p.y && p.y + 1 < height
}

/// A saturating counter step: one more, until the machine limit is reached.
pub open spec fn bumped(counter: u64) -> u64 {
    if counter < u64::MAX {
        (counter + 1) as u64
    } else {
        counter
    }
}

/// Relies on rand's `Rng::gen_range` on `thread_rng`: for a non-empty
/// range `low..high` the sample lies in `[low, high)`. The range here is
/// never empty, so the call cannot panic.
#[verifier::external_body]
fn random_in_range(low: u64, high: u64) -> (r: u64)
    requires
        low < high,
    ensures
        low <= r < high,
{
    rand::Rng::gen_range(&mut rand::thread_rng(), low..high)
}

pub struct Game {
    width: u16,
    height: u16,
    snake: Snake,
    food: Option<Point>,
    score: u64,
    ticks: u64,
    state: GameState,
}

impl Game {
    /// The board width.
    pub closed spec fn width_spec(&self) -> u16 {
        self.width
    }

    /// The board height.
    pub closed spec fn height_spec(&self) -> u16 {
        self.height
    }

    /// The snake.
    pub closed spec fn snake_spec(&self) -> Snake {
        self.snake
    }

    /// The food item, if one is on the board.
    pub closed spec fn food_spec(&self) -> Option<Point> {
        self.food
    }

    /// How many food items have been eaten.
    pub closed spec fn score_spec(&self) -> u64 {
        self.score
    }

    /// How many ticks have been processed.
    pub closed spec fn ticks_spec(&self) -> u64 {
        self.ticks
    }

    /// The phase of the game.
    pub closed spec fn state_spec(&self) -> GameState {
        self.state
    }

    /// The invariant held between ticks: positive dimensions, a well-formed
    /// snake whose segments all lie on the board, food only on a free
    /// interior cell, and no self-overlap unless that is exactly what ended
    /// the game.
    pub open spec fn wf(&self) -> bool {
        &&& self.width_spec() > 0
        &&& self.height_spec() > 0
        &&& self.snake_spec().wf()
        &&& forall|i: int|
            0 <= i < self.snake_spec().body_view().len() ==> in_bounds(
                #[trigger] self.snake_spec().body_view()[i],
                self.width_spec(),
                self.height_spec(),
            )
        &&& (self.food_spec() matches Some(f) ==> in_interior(f, self.width_spec(), self.height_spec())
            && !self.snake_spec().body_view().contains(f))
        &&& (self.state_spec() != GameState::GameOver(GameOverCause::SelfCollision)
            ==> !self.snake_spec().self_collision())
    }

    /// The heading the snake will travel in this tick: the requested turn,
    /// unless it is the exact reversal of the current heading.
    pub open spec fn tick_direction(&self, input: InputEvent) -> Direction {
        match input {
            InputEvent::Turn(d) => if d == opposite_dir(self.snake_spec().direction_spec()) {
                self.snake_spec().direction_spec()
            } else {
                d
            },
            InputEvent::NoChange => self.snake_spec().direction_spec(),
        }
    }

    /// The x coordinate the head reaches this tick, as an unbounded integer.
    pub open spec fn tick_head_x(&self, input: InputEvent) -> int {
        moved_x(self.snake_spec().body_view()[0], self.tick_direction(input), 1)
    }

    /// The y coordinate the head reaches this tick, as an unbounded integer.
    pub open spec fn tick_head_y(&self, input: InputEvent) -> int {
        moved_y(self.snake_spec().body_view()[0], self.tick_direction(input), 1)
    }

    /// The step of this tick drives the head off the board: some coordinate
    /// leaves `[0, width) x [0, height)`.
    pub open spec fn tick_hits_wall(&self, input: InputEvent) -> bool {
        !(0 <= self.tick_head_x(input) < self.width_spec() && 0 <= self.tick_head_y(input)
            < self.height_spec())
    }

    /// The cell the head occupies after this tick's step, when it stays on
    /// the board.
    pub open spec fn tick_new_head(&self, input: InputEvent) -> Point {
        moved(self.snake_spec().body_view()[0], self.tick_direction(input), 1)
    }

    /// The segments that lie behind the head after this tick's step.
    pub open spec fn tick_trailing_body(&self) -> Seq<Point> {
        if self.snake_spec().digesting_spec() {
            self.snake_spec().body_view()
        } else {
            self.snake_spec().body_view().drop_last()
        }
    }

    /// The step of this tick lands the head on another body segment.
    pub open spec fn tick_hits_self(&self, input: InputEvent) -> bool {
        !self.tick_hits_wall(input) && self.tick_trailing_body().contains(
            self.tick_new_head(input),
        )
    }

    /// The step of this tick lands the head on the food cell.
    pub open spec fn tick_eats(&self, input: InputEvent) -> bool {
        &&& !self.tick_hits_wall(input)
        &&& !self.tick_hits_self(input)
        &&& self.food_spec() == Some(self.tick_new_head(input))
    }

    /// Whether every segment of `snake` lies on a board of the given size.
    fn snake_in_bounds(snake: &Snake, width: u16, height: u16) -> (r: bool)
        ensures
            r == (forall|i: int|
                0 <= i < snake.body_view().len() ==> in_bounds(
                    #[trigger] snake.body_view()[i],
                    width,
                    height,
                )),
    {
        let body = snake.body();
        let mut i: usize = 0;
        while i < body.len()
            invariant
                i <= snake.body_view().len(),
                body@ == snake.body_view(),
                forall|k: int|
                    0 <= k < i ==> in_bounds(#[trigger] snake.body_view()[k], width, height),
            decreases snake.body_view().len() - i,
        {
            if !(body[i].x < width && body[i].y < height) {
                return false;
            }
            i += 1;
        }
        true
    }

    /// Builds a fresh game: a snake of `INITIAL_SNAKE_LENGTH` segments at
    /// the board's centre, headed a randomly chosen way, no food yet, score
    /// and tick counter at zero.
    ///
    /// Fails with `OutOfBounds` when the board cannot hold the initial
    /// snake behind the drawn heading; a board of at least 9 x 9 cells
    /// holds it whichever heading is drawn.
    pub fn new(width: u16, height: u16) -> (r: Result<Game, OutOfBounds>)
        requires
            width > 0,
            height > 0,
        ensures
            r is Ok ==> {
                let g = r->Ok_0;
                &&& g.wf()
                &&& g.width_spec() == width
                &&& g.height_spec() == height
                &&& g.snake_spec().body_view().len() == INITIAL_SNAKE_LENGTH
                &&& g.snake_spec().body_view()[0] == (Point {
                    x: (width as int / 2) as u16,
                    y: (height as int / 2) as u16,
                })
                &&& !g.snake_spec().digesting_spec()
                &&& g.food_spec() is None
                &&& g.score_spec() == 0
                &&& g.ticks_spec() == 0
                &&& g.state_spec() == GameState::Initializing
            },
            width >= 9 && height >= 9 ==> r is Ok,
            r is Err ==> r->Err_0 == OutOfBounds,
    {
        let k = random_in_range(0, 4);
        let direction: Direction = if k == 0 {
            Direction::Up
        } else if k == 1 {
            Direction::Right
        } else if k == 2 {
            Direction::Down
        } else {
            Direction::Left
        };
        let start = Point::new(width / 2, height / 2);
        let snake = match Snake::new(start, INITIAL_SNAKE_LENGTH, direction) {
            Ok(s) => s,
            Err(e) => {
                proof {
                    if width >= 9 && height >= 9 {
                        assert forall|i: int|
                            0 <= i < INITIAL_SNAKE_LENGTH implies can_move(
                            start,
                            opposite_dir(direction),
                            i,
                        ) by {}
                        assert(false);
                    }
                }
                return Err(e);
            },
        };
        if !Self::snake_in_bounds(&snake, width, height) {
            proof {
                if width >= 9 && height >= 9 {
                    assert forall|i: int|
                        0 <= i < snake.body_view().len() implies in_bounds(
                        #[trigger] snake.body_view()[i],
                        width,
                        height,
                    ) by {
                        assert(snake.body_view()[i] == moved(start, opposite_dir(direction), i));
                    }
                    assert(false);
                }
            }
            return Err(OutOfBounds);
        }
        Ok(
            Game {
                width,
                height,
                snake,
                food: None,
                score: 0,
                ticks: 0,
                state: GameState::Initializing,
            },
        )
    }

    /// Builds a game around a caller-supplied snake: no food yet, score and
    /// tick counter at zero. Fails with `OutOfBounds` exactly when some
    /// segment lies off the board.
    pub fn with_snake(width: u16, height: u16, snake: Snake) -> (r: Result<Game, OutOfBounds>)
        requires
            width > 0,
            height > 0,
            snake.wf(),
            !snake.self_collision(),
        ensures
            r is Ok <==> (forall|i: int|
                0 <= i < snake.body_view().len() ==> in_bounds(
                    #[trigger] snake.body_view()[i],
                    width,
                    height,
                )),
            r is Ok ==> {
                let g = r->Ok_0;
                &&& g.wf()
                &&& g.width_spec() == width
                &&& g.height_spec() == height
                &&& g.snake_spec() == snake
                &&& g.food_spec() is None
                &&& g.score_spec() == 0
                &&& g.ticks_spec() == 0
                &&& g.state_spec() == GameState::Initializing
            },
            r is Err ==> r->Err_0 == OutOfBounds,
    {
        if !Self::snake_in_bounds(&snake, width, height) {
            return Err(OutOfBounds);
        }
        Ok(
            Game {
                width,
                height,
                snake,
                food: None,
                score: 0,
                ticks: 0,
                state: GameState::Initializing,
            },
        )
    }

    /// The board width.
    pub fn width(&self) -> (r: u16)
        ensures
            r == self.width_spec(),
    {
        self.width
    }

    /// The board height.
    pub fn height(&self) -> (r: u16)
        ensures
            r == self.height_spec(),
    {
        self.height
    }

    /// The snake, for rendering and queries.
    pub fn snake(&self) -> (r: &Snake)
        ensures
            r == self.snake_spec(),
    {
        &self.snake
    }

    /// The food item, if one is on the board.
    pub fn food(&self) -> (r: Option<Point>)
        ensures
            r == self.food_spec(),
    {
        self.food
    }

    /// How many food items have been eaten.
    pub fn score(&self) -> (r: u64)
        ensures
            r == self.score_spec(),
    {
        self.score
    }

    /// How many ticks have been processed.
    pub fn ticks(&self) -> (r: u64)
        ensures
            r == self.ticks_spec(),
    {
        self.ticks
    }

    /// The phase of the game.
    pub fn state(&self) -> (r: GameState)
        ensures
            r == self.state_spec(),
    {
        self.state
    }

    /// Spawns one food item on a free interior cell, chosen by rejection
    /// sampling: up to `SPAWN_ATTEMPTS` random candidates are drawn, and if
    /// all of them are occupied the free interior cells are enumerated
    /// outright and one of them is drawn. Fails with `NoFreeCell`, leaving
    /// the game unchanged, exactly when the snake covers the whole
    /// interior.
    pub fn spawn_food(&mut self) -> (r: Result<(), NoFreeCell>)
        requires
            old(self).wf(),
            old(self).food_spec() is None,
        ensures
            final(self).wf(),
            final(self).width_spec() == old(self).width_spec(),
            final(self).height_spec() == old(self).height_spec(),
            final(self).snake_spec() == old(self).snake_spec(),
            final(self).score_spec() == old(self).score_spec(),
            final(self).ticks_spec() == old(self).ticks_spec(),
            final(self).state_spec() == old(self).state_spec(),
            r is Ok ==> (final(self).food_spec() matches Some(f) && in_interior(
                f,
                old(self).width_spec(),
                old(self).height_spec(),
            ) && !old(self).snake_spec().body_view().contains(f)),
            r is Err ==> final(self).food_spec() is None && r->Err_0 == NoFreeCell,
            r is Err <==> (forall|p: Point|
                in_interior(p, old(self).width_spec(), old(self).height_spec())
                    ==> old(self).snake_spec().body_view().contains(p)),
    {
        let width = self.width;
        let height = self.height;
        if width < 3 || height < 3 {
            return Err(NoFreeCell);
        }
        let mut attempts: u16 = 0;
        while attempts < SPAWN_ATTEMPTS
            invariant
                *self == *old(self),
                old(self).wf(),
                old(self).food_spec() is None,
                width == self.width_spec(),
                height == self.height_spec(),
                width >= 3,
                height >= 3,
            decreases SPAWN_ATTEMPTS - attempts,
        {
            let xv = random_in_range(1, (width - 1) as u64);
            let yv = random_in_range(1, (height - 1) as u64);
            let x = xv as u16;
            let y = yv as u16;
            proof {
                assert(xv < u16::MAX as u64 && yv < u16::MAX as u64);
                assert(x as int == xv as int && y as int == yv as int);
            }
            let candidate = Point::new(x, y);
            if !self.snake.contains(candidate) {
                proof {
                    assert(in_interior(candidate, width, height));
                }
                self.food = Some(candidate);
                return Ok(());
            }
            attempts += 1;
        }
        let mut free: Vec<Point> = Vec::new();
        let mut x: u16 = 1;
        while x < width - 1
            invariant
                *self == *old(self),
                old(self).wf(),
                old(self).food_spec() is None,
                width == self.width_spec(),
                height == self.height_spec(),
                width >= 3,
                height >= 3,
                1 <= x <= width - 1,
                forall|k: int|
                    0 <= k < free@.len() ==> in_interior(#[trigger] free@[k], width, height)
                        && !self.snake_spec().body_view().contains(free@[k]),
                forall|p: Point|
                    in_interior(p, width, height) && p.x < x
                        && !self.snake_spec().body_view().contains(p) ==> #[trigger] free@.contains(
                        p,
                    ),
            decreases width - 1 - x,
        {
            let mut y: u16 = 1;
            while y < height - 1
                invariant
                    *self == *old(self),
                    old(self).wf(),
                    old(self).food_spec() is None,
                    width == self.width_spec(),
                    height == self.height_spec(),
                    width >= 3,
                    height >= 3,
                    1 <= x < width - 1,
                    1 <= y <= height - 1,
                    forall|k: int|
                        0 <= k < free@.len() ==> in_interior(#[trigger] free@[k], width, height)
                            && !self.snake_spec().body_view().contains(free@[k]),
                    forall|p: Point|
                        in_interior(p, width, height) && (p.x < x || (p.x == x && p.y < y))
                            && !self.snake_spec().body_view().contains(p)
                            ==> #[trigger] free@.contains(p),
                decreases height - 1 - y,
            {
                let candidate = Point::new(x, y);
                if !self.snake.contains(candidate) {
                    let ghost free0 = free@;
                    free.push(candidate);
                    proof {
                        assert forall|p: Point|
                            in_interior(p, width, height) && (p.x < x || (p.x == x && p.y < y + 1))
                                && !self.snake_spec().body_view().contains(p)
                                implies #[trigger] free@.contains(p) by {
                            if p == candidate {
                                assert(free@[free0.len() as int] == p);
                            } else {
                                assert(p.x < x || (p.x == x && p.y < y));
                                assert(free0.contains(p));
                                let k = choose|k: int| 0 <= k < free0.len() && free0[k] == p;
                                assert(free@[k] == p);
                            }
                        }
                    }
                } else {
                    proof {
                        assert forall|p: Point|
                            in_interior(p, width, height) && (p.x < x || (p.x == x && p.y < y + 1))
                                && !self.snake_spec().body_view().contains(p)
                                implies #[trigger] free@.contains(p) by {
                            assert(p != candidate);
                        }
                    }
                }
                y += 1;
            }
            x += 1;
        }
        if free.len() == 0 {
            proof {
                assert forall|p: Point|
                    in_interior(p, width, height)
                        implies self.snake_spec().body_view().contains(p) by {
                    if !self.snake_spec().body_view().contains(p) {
                        assert(free@.contains(p));
                    }
                }
            }
            Err(NoFreeCell)
        } else {
            let idx = random_in_range(0, free.len() as u64) as usize;
            let f = free[idx];
            self.food = Some(f);
            Ok(())
        }
    }

    /// Runs one simulation step. A finished game never changes again. In a
    /// game still in play, the requested heading is applied (a reversal is
    /// ignored), the snake advances one step, a head that leaves the board
    /// ends the game with `WallCollision` (the body stays put), a head that
    /// lands on another segment ends it with `SelfCollision`, a head that
    /// lands on the food cell eats it (the score rises by one and the next
    /// advance will grow the body), and food is spawned whenever none is on
    /// the board and a free interior cell exists.
    #[verifier::rlimit(100)]
    pub fn tick(&mut self, input: InputEvent)
        requires
            old(self).wf(),
        ensures
            final(self).wf(),
            final(self).width_spec() == old(self).width_spec(),
            final(self).height_spec() == old(self).height_spec(),
            old(self).state_spec() is GameOver ==> *final(self) == *old(self),
            !(old(self).state_spec() is GameOver) ==> {
                let dir = old(self).tick_direction(input);
                &&& final(self).ticks_spec() == bumped(old(self).ticks_spec())
                &&& final(self).snake_spec().direction_spec() == dir
                &&& (final(self).state_spec() == GameState::GameOver(GameOverCause::WallCollision)
                    <==> old(self).tick_hits_wall(input))
                &&& (final(self).state_spec() == GameState::GameOver(GameOverCause::SelfCollision)
                    <==> old(self).tick_hits_self(input))
                &&& (old(self).tick_hits_wall(input) ==> {
                    &&& final(self).snake_spec().body_view() == old(self).snake_spec().body_view()
                    &&& final(self).snake_spec().digesting_spec() == old(self).snake_spec().digesting_spec()
                    &&& final(self).food_spec() == old(self).food_spec()
                    &&& final(self).score_spec() == old(self).score_spec()
                })
                &&& (!old(self).tick_hits_wall(input) ==> final(self).snake_spec().body_view()
                    == advanced_body(
                    old(self).snake_spec().body_view(),
                    dir,
                    old(self).snake_spec().digesting_spec(),
                ))
                &&& (old(self).tick_hits_self(input) ==> {
                    &&& final(self).food_spec() == old(self).food_spec()
                    &&& final(self).score_spec() == old(self).score_spec()
                    &&& !final(self).snake_spec().digesting_spec()
                })
                &&& (!old(self).tick_hits_wall(input) && !old(self).tick_hits_self(input) ==> {
                    &&& final(self).state_spec() == GameState::Running
                    &&& (old(self).tick_eats(input) ==> final(self).score_spec() == bumped(
                        old(self).score_spec(),
                    ) && final(self).snake_spec().digesting_spec())
                    &&& (!old(self).tick_eats(input) ==> final(self).score_spec() == old(self).score_spec() && !final(self).snake_spec().digesting_spec())
                    &&& (!old(self).tick_eats(input) && old(self).food_spec() is Some ==> final(self).food_spec() == old(self).food_spec())
                    &&& ((old(self).tick_eats(input) || old(self).food_spec() is None) ==> (final(self).food_spec() is None <==> (forall|p: Point|
                        in_interior(p, old(self).width_spec(), old(self).height_spec()) ==> final(self).snake_spec().body_view().contains(p))))
                })
            },
    {
        match self.state {
            GameState::GameOver(_) => {
                return;
            },
            _ => {},
        }
        self.state = GameState::Running;
        if self.ticks < u64::MAX {
            self.ticks = self.ticks + 1;
        }
        match input {
            InputEvent::Turn(d) => self.snake.set_direction(d),
            InputEvent::NoChange => {},
        }
        let head = self.snake.head();
        let dir = self.snake.direction();
        let new_head = match head.transform(dir, 1) {
            Ok(p) => p,
            Err(_) => {
                self.state = GameState::GameOver(GameOverCause::WallCollision);
                return;
            },
        };
        if !(new_head.x < self.width && new_head.y < self.height) {
            self.state = GameState::GameOver(GameOverCause::WallCollision);
            return;
        }
        proof {
            assert(!old(self).tick_hits_wall(input));
            assert forall|a: int, b: int|
                0 <= a < b < self.snake_spec().body_view().len()
                    implies #[trigger] self.snake_spec().body_view()[a]
                != #[trigger] self.snake_spec().body_view()[b] by {
                if a == 0 {
                    assert(!(self.snake_spec().body_view()[b] == self.snake_spec().body_view()[0]));
                }
            }
            assert(self.snake_spec().no_overlap());
        }
        let advanced = self.snake.advance();
        proof {
            assert(advanced is Ok);
            assert(self.snake_spec().body_view() == advanced_body(
                old(self).snake_spec().body_view(),
                old(self).tick_direction(input),
                old(self).snake_spec().digesting_spec(),
            ));
            assert(self.snake_spec().body_view()[0] == old(self).tick_new_head(input));
            assert(self.snake_spec().body_view() == seq![old(self).tick_new_head(input)] + old(self).tick_trailing_body());
        }
        if self.snake.collides_with_self() {
            proof {
                let nh = old(self).tick_new_head(input);
                let trailing = old(self).tick_trailing_body();
                let j = choose|j: int|
                    1 <= j < self.snake_spec().body_view().len()
                        && #[trigger] self.snake_spec().body_view()[j]
                        == self.snake_spec().body_view()[0];
                assert(trailing[j - 1] == nh);
                assert(trailing.contains(nh));
            }
            self.state = GameState::GameOver(GameOverCause::SelfCollision);
            return;
        }
        proof {
            let nh = old(self).tick_new_head(input);
            let trailing = old(self).tick_trailing_body();
            if trailing.contains(nh) {
                let k = choose|k: int| 0 <= k < trailing.len() && trailing[k] == nh;
                assert(self.snake_spec().body_view()[k + 1] == nh);
                assert(false);
            }
            assert(!old(self).tick_hits_self(input));
            assert forall|i: int|
                0 <= i < self.snake_spec().body_view().len() implies in_bounds(
                #[trigger] self.snake_spec().body_view()[i],
                self.width_spec(),
                self.height_spec(),
            ) by {
                if i >= 1 {
                    assert(self.snake_spec().body_view()[i] == old(self).tick_trailing_body()[i
                        - 1]);
                    assert(in_bounds(
                        old(self).snake_spec().body_view()[i - 1],
                        self.width_spec(),
                        self.height_spec(),
                    ));
                }
            }
        }
        let mut ate = false;
        match self.food {
            Some(f) => {
                if self.snake.head() == f {
                    self.food = None;
                    self.snake.begin_digesting();
                    if self.score < u64::MAX {
                        self.score = self.score + 1;
                    }
                    ate = true;
                }
            },
            None => {},
        }
        proof {
            if !ate && old(self).food_spec() is Some {
                let f = old(self).food_spec()->Some_0;
                assert(f != old(self).tick_new_head(input));
                assert forall|i: int|
                    0 <= i < self.snake_spec().body_view().len()
                        implies #[trigger] self.snake_spec().body_view()[i] != f by {
                    if i >= 1 {
                        let trailing = old(self).tick_trailing_body();
                        assert(self.snake_spec().body_view()[i] == trailing[i - 1]);
                        assert(old(self).snake_spec().body_view().contains(
                            old(self).snake_spec().body_view()[i - 1],
                        ));
                    }
                }
                assert(!self.snake_spec().body_view().contains(f));
            }
        }
        if self.food.is_none() {
            let _ = self.spawn_food();
        }
    }

    /// Puts a food item on an explicitly chosen cell; the deterministic
    /// alternative to the random spawn, for replays and scripted play.
    /// Succeeds, and returns true, exactly when no food is on the board yet
    /// and the cell is a free interior cell; otherwise the game is
    /// unchanged.
    pub fn place_food(&mut self, food: Point) -> (r: bool)
        requires
            old(self).wf(),
        ensures
            final(self).wf(),
            r <==> (old(self).food_spec() is None && in_interior(
                food,
                old(self).width_spec(),
                old(self).height_spec(),
            ) && !old(self).snake_spec().body_view().contains(food)),
            r ==> final(self).food_spec() == Some(food),
            !r ==> *final(self) == *old(self),
            final(self).width_spec() == old(self).width_spec(),
            final(self).height_spec() == old(self).height_spec(),
            final(self).snake_spec() == old(self).snake_spec(),
            final(self).score_spec() == old(self).score_spec(),
            final(self).ticks_spec() == old(self).ticks_spec(),
            final(self).state_spec() == old(self).state_spec(),
    {
        if self.food.is_none() && food.x >= 1 && food.x < self.width - 1 && food.y >= 1 && food.y
            < self.height - 1 && !self.snake.contains(food) {
            self.food = Some(food);
            true
        } else {
            false
        }
    }
}

} // verus!
