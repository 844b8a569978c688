use snake::Direction;
use snake::Game;
use snake::GameOverCause;
use snake::GameState;
use snake::InputEvent;
use snake::NoFreeCell;
use snake::Point;
use snake::Snake;

fn straight_game(width: u16, height: u16, head: Point, length: u16, dir: Direction) -> Game {
    let s = Snake::new(head, length, dir).unwrap();
    Game::with_snake(width, height, s).unwrap()
}

#[test]
fn new_game_starts_at_the_centre() {
    let g = Game::new(20, 20).unwrap();
    assert_eq!(g.width(), 20);
    assert_eq!(g.height(), 20);
    assert_eq!(g.state(), GameState::Initializing);
    assert_eq!(g.score(), 0);
    assert_eq!(g.ticks(), 0);
    assert!(g.food().is_none());
    let body = g.snake().body();
    assert_eq!(body.len(), 5);
    assert_eq!(body[0], Point::new(10, 10));
    for p in body.iter() {
        assert!(p.x < 20 && p.y < 20);
    }
}

#[test]
fn first_tick_starts_the_game_and_spawns_food() {
    let mut g = Game::new(20, 20).unwrap();
    g.tick(InputEvent::NoChange);
    assert_eq!(g.state(), GameState::Running);
    assert_eq!(g.ticks(), 1);
    let food = g.food().expect("a free interior cell exists");
    assert!(1 <= food.x && food.x <= 18 && 1 <= food.y && food.y <= 18);
    assert!(!g.snake().contains(food));
}

#[test]
fn running_into_the_right_wall_ends_the_game() {
    let mut g = straight_game(10, 10, Point::new(9, 5), 3, Direction::Right);
    g.tick(InputEvent::NoChange);
    assert_eq!(g.state(), GameState::GameOver(GameOverCause::WallCollision));
    let body = g.snake().body();
    assert_eq!(body.len(), 3);
    assert_eq!(body[0], Point::new(9, 5));
}

#[test]
fn running_off_the_left_edge_ends_the_game() {
    let mut g = straight_game(10, 10, Point::new(0, 5), 3, Direction::Left);
    g.tick(InputEvent::NoChange);
    assert_eq!(g.state(), GameState::GameOver(GameOverCause::WallCollision));
}

#[test]
fn game_over_is_terminal() {
    let mut g = straight_game(10, 10, Point::new(9, 5), 3, Direction::Right);
    g.tick(InputEvent::NoChange);
    assert_eq!(g.state(), GameState::GameOver(GameOverCause::WallCollision));
    let ticks = g.ticks();
    let score = g.score();
    g.tick(InputEvent::Turn(Direction::Up));
    assert_eq!(g.state(), GameState::GameOver(GameOverCause::WallCollision));
    assert_eq!(g.ticks(), ticks);
    assert_eq!(g.score(), score);
    assert_eq!(g.snake().body().len(), 3);
}

#[test]
fn turning_into_the_body_ends_the_game() {
    let mut g = straight_game(20, 20, Point::new(10, 10), 5, Direction::Right);
    g.tick(InputEvent::Turn(Direction::Down));
    assert_eq!(g.state(), GameState::Running);
    g.tick(InputEvent::Turn(Direction::Left));
    assert_eq!(g.state(), GameState::Running);
    g.tick(InputEvent::Turn(Direction::Up));
    assert_eq!(g.state(), GameState::GameOver(GameOverCause::SelfCollision));
}

#[test]
fn reversal_request_is_ignored_in_a_tick() {
    let mut g = straight_game(20, 20, Point::new(10, 10), 3, Direction::Right);
    g.tick(InputEvent::Turn(Direction::Left));
    assert_eq!(g.state(), GameState::Running);
    assert_eq!(g.snake().head(), Point::new(11, 10));
    assert_eq!(g.snake().direction(), Direction::Right);
}

#[test]
fn eating_food_raises_the_score_and_grows_the_snake_once() {
    let mut g = straight_game(12, 12, Point::new(5, 5), 3, Direction::Right);
    assert!(g.place_food(Point::new(7, 5)));
    g.tick(InputEvent::NoChange);
    assert_eq!(g.score(), 0);
    assert_eq!(g.food(), Some(Point::new(7, 5)));
    assert_eq!(g.snake().body().len(), 3);
    g.tick(InputEvent::NoChange);
    assert_eq!(g.score(), 1);
    assert_eq!(g.snake().head(), Point::new(7, 5));
    assert!(g.snake().is_digesting());
    assert_eq!(g.snake().body().len(), 3);
    let respawned = g.food().expect("free cells remain, so food respawns");
    assert!(!g.snake().contains(respawned));
    g.tick(InputEvent::NoChange);
    assert_eq!(g.snake().body().len(), 4);
}

#[test]
fn place_food_rejects_occupied_and_border_cells() {
    let mut g = straight_game(10, 10, Point::new(5, 5), 3, Direction::Right);
    assert!(!g.place_food(Point::new(4, 5)));
    assert!(!g.place_food(Point::new(0, 3)));
    assert!(!g.place_food(Point::new(3, 9)));
    assert!(g.food().is_none());
    assert!(g.place_food(Point::new(2, 2)));
    assert!(!g.place_food(Point::new(3, 3)));
    assert_eq!(g.food(), Some(Point::new(2, 2)));
}

#[test]
fn spawned_food_avoids_the_snake() {
    let mut g = straight_game(10, 10, Point::new(5, 5), 5, Direction::Right);
    assert_eq!(g.spawn_food(), Ok(()));
    let food = g.food().expect("spawn succeeded");
    assert!(1 <= food.x && food.x <= 8 && 1 <= food.y && food.y <= 8);
    assert!(!g.snake().contains(food));
}

#[test]
fn spawn_fails_when_the_snake_covers_the_interior() {
    let s = Snake::new(Point::new(1, 1), 1, Direction::Right).unwrap();
    let mut g = Game::with_snake(3, 3, s).unwrap();
    assert_eq!(g.spawn_food(), Err(NoFreeCell));
    assert!(g.food().is_none());
}

#[test]
fn with_snake_rejects_a_snake_off_the_board() {
    let s = Snake::new(Point::new(9, 5), 3, Direction::Right).unwrap();
    assert!(Game::with_snake(8, 10, s).is_err());
}
