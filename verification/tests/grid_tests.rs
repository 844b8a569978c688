use snake::Direction;
use snake::OutOfBounds;
use snake::Point;

#[test]
fn opposite_maps_each_direction() {
    assert_eq!(Direction::Up.opposite(), Direction::Down);
    assert_eq!(Direction::Down.opposite(), Direction::Up);
    assert_eq!(Direction::Left.opposite(), Direction::Right);
    assert_eq!(Direction::Right.opposite(), Direction::Left);
}

#[test]
fn opposite_is_involutive() {
    let all = [Direction::Up, Direction::Down, Direction::Left, Direction::Right];
    for d in all {
        assert_eq!(d.opposite().opposite(), d);
    }
}

#[test]
fn transform_moves_along_each_direction() {
    let p = Point::new(5, 7);
    assert_eq!(p.transform(Direction::Right, 3), Ok(Point::new(8, 7)));
    assert_eq!(p.transform(Direction::Left, 3), Ok(Point::new(2, 7)));
    assert_eq!(p.transform(Direction::Down, 3), Ok(Point::new(5, 10)));
    assert_eq!(p.transform(Direction::Up, 3), Ok(Point::new(5, 4)));
}

#[test]
fn transform_round_trip_returns_to_start() {
    let p = Point::new(5, 7);
    let all = [Direction::Up, Direction::Down, Direction::Left, Direction::Right];
    for d in all {
        let q = p.transform(d, 4).unwrap();
        assert_eq!(q.transform(d.opposite(), 4), Ok(p));
    }
}

#[test]
fn transform_zero_steps_is_identity() {
    let p = Point::new(3, 9);
    assert_eq!(p.transform(Direction::Up, 0), Ok(p));
}

#[test]
fn transform_rejects_negative_x() {
    assert_eq!(Point::new(0, 5).transform(Direction::Left, 1), Err(OutOfBounds));
    assert_eq!(Point::new(2, 5).transform(Direction::Left, 3), Err(OutOfBounds));
}

#[test]
fn transform_rejects_negative_y() {
    assert_eq!(Point::new(5, 0).transform(Direction::Up, 1), Err(OutOfBounds));
}

#[test]
fn transform_rejects_coordinate_overflow() {
    assert_eq!(Point::new(65535, 0).transform(Direction::Right, 1), Err(OutOfBounds));
    assert_eq!(Point::new(0, 65535).transform(Direction::Down, 1), Err(OutOfBounds));
}
