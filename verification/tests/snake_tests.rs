use snake::Direction;
use snake::OutOfBounds;
use snake::Point;
use snake::Snake;

#[test]
fn new_snake_trails_behind_head() {
    let s = Snake::new(Point::new(5, 5), 3, Direction::Right).unwrap();
    let body = s.body();
    assert_eq!(body.len(), 3);
    assert_eq!(body[0], Point::new(5, 5));
    assert_eq!(body[1], Point::new(4, 5));
    assert_eq!(body[2], Point::new(3, 5));
}

#[test]
fn new_snake_has_requested_length() {
    let s = Snake::new(Point::new(10, 10), 5, Direction::Up).unwrap();
    assert_eq!(s.body().len(), 5);
    assert!(!s.is_digesting());
}

#[test]
fn new_snake_rejects_tail_off_the_grid() {
    assert!(matches!(
        Snake::new(Point::new(1, 5), 4, Direction::Right),
        Err(OutOfBounds)
    ));
}

#[test]
fn set_direction_ignores_reversal() {
    let mut s = Snake::new(Point::new(5, 5), 3, Direction::Right).unwrap();
    s.set_direction(Direction::Left);
    assert_eq!(s.direction(), Direction::Right);
    s.set_direction(Direction::Left);
    assert_eq!(s.direction(), Direction::Right);
    s.set_direction(Direction::Up);
    assert_eq!(s.direction(), Direction::Up);
}

#[test]
fn advance_moves_head_and_drops_tail() {
    let mut s = Snake::new(Point::new(5, 5), 3, Direction::Right).unwrap();
    assert_eq!(s.advance(), Ok(()));
    let body = s.body();
    assert_eq!(body.len(), 3);
    assert_eq!(body[0], Point::new(6, 5));
    assert_eq!(body[1], Point::new(5, 5));
    assert_eq!(body[2], Point::new(4, 5));
    assert_eq!(s.head(), Point::new(6, 5));
}

#[test]
fn advance_rejects_leaving_the_grid() {
    let mut s = Snake::new(Point::new(0, 5), 2, Direction::Left).unwrap();
    assert_eq!(s.advance(), Err(OutOfBounds));
    assert_eq!(s.body().len(), 2);
    assert_eq!(s.head(), Point::new(0, 5));
}

#[test]
fn digesting_grows_the_body_exactly_once() {
    let mut s = Snake::new(Point::new(5, 5), 3, Direction::Right).unwrap();
    s.begin_digesting();
    assert!(s.is_digesting());
    assert_eq!(s.advance(), Ok(()));
    assert_eq!(s.body().len(), 4);
    assert!(!s.is_digesting());
    assert_eq!(s.advance(), Ok(()));
    assert_eq!(s.body().len(), 4);
}

#[test]
fn contains_reports_each_segment() {
    let s = Snake::new(Point::new(5, 5), 3, Direction::Right).unwrap();
    assert!(s.contains(Point::new(5, 5)));
    assert!(s.contains(Point::new(4, 5)));
    assert!(s.contains(Point::new(3, 5)));
    assert!(!s.contains(Point::new(6, 5)));
    assert!(!s.contains(Point::new(5, 6)));
}

#[test]
fn fresh_snake_does_not_collide() {
    let s = Snake::new(Point::new(5, 5), 5, Direction::Right).unwrap();
    assert!(!s.collides_with_self());
}

#[test]
fn tight_turn_collides_with_own_body() {
    let mut s = Snake::new(Point::new(5, 5), 5, Direction::Right).unwrap();
    s.set_direction(Direction::Down);
    assert_eq!(s.advance(), Ok(()));
    assert!(!s.collides_with_self());
    s.set_direction(Direction::Left);
    assert_eq!(s.advance(), Ok(()));
    assert!(!s.collides_with_self());
    s.set_direction(Direction::Up);
    assert_eq!(s.advance(), Ok(()));
    assert!(s.collides_with_self());
    assert_eq!(s.head(), Point::new(4, 5));
}
