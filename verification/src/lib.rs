//! Verified core of a terminal snake game: grid coordinate arithmetic,
//! directional movement, the snake body, collision detection, food
//! placement, and the per-tick game state machine.

pub mod game;
pub mod grid;
pub mod snake;

pub use game::Game;
pub use game::GameOverCause;
pub use game::GameState;
pub use game::InputEvent;
pub use game::NoFreeCell;

pub use snake::Snake;

pub use grid::Direction;
pub use grid::OutOfBounds;
pub use grid::Point;
