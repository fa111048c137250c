use snake::direction::Direction;

const ALL: [Direction; 5] =
    [Direction::Still, Direction::Left, Direction::Right, Direction::Up, Direction::Down];

#[test]
fn components_are_unit_vectors() {
    assert_eq!((Direction::Still.x(), Direction::Still.y()), (0, 0));
    assert_eq!((Direction::Left.x(), Direction::Left.y()), (-1, 0));
    assert_eq!((Direction::Right.x(), Direction::Right.y()), (1, 0));
    assert_eq!((Direction::Up.x(), Direction::Up.y()), (0, 1));
    assert_eq!((Direction::Down.x(), Direction::Down.y()), (0, -1));
}

#[test]
fn default_direction_is_still() {
    assert_eq!(Direction::default(), Direction::Still);
}

#[test]
fn reversal_on_the_same_axis_is_ignored() {
    // Moving by (10, 0) on a grid of step 10; asked for (-10, 0).
    let step = 10;
    let next = Direction::Right.turn(Direction::Left);
    assert_eq!(next, Direction::Right);
    assert_eq!((next.x() * step, next.y() * step), (10, 0));
    assert_eq!(Direction::Left.turn(Direction::Right), Direction::Left);
    assert_eq!(Direction::Up.turn(Direction::Down), Direction::Up);
    assert_eq!(Direction::Down.turn(Direction::Up), Direction::Down);
}

#[test]
fn repeating_the_motion_changes_nothing() {
    for d in [Direction::Left, Direction::Right, Direction::Up, Direction::Down] {
        assert_eq!(d.turn(d), d);
    }
}

#[test]
fn perpendicular_turn_is_taken() {
    // Moving by (10, 0) on a grid of step 10; asked for (0, 10).
    let step = 10;
    let next = Direction::Right.turn(Direction::Up);
    assert_eq!(next, Direction::Up);
    assert_eq!((next.x() * step, next.y() * step), (0, 10));
    assert_eq!(Direction::Right.turn(Direction::Down), Direction::Down);
    assert_eq!(Direction::Left.turn(Direction::Up), Direction::Up);
    assert_eq!(Direction::Left.turn(Direction::Down), Direction::Down);
    assert_eq!(Direction::Up.turn(Direction::Left), Direction::Left);
    assert_eq!(Direction::Up.turn(Direction::Right), Direction::Right);
    assert_eq!(Direction::Down.turn(Direction::Left), Direction::Left);
    assert_eq!(Direction::Down.turn(Direction::Right), Direction::Right);
}

#[test]
fn a_head_at_rest_takes_any_direction() {
    for d in [Direction::Left, Direction::Right, Direction::Up, Direction::Down] {
        assert_eq!(Direction::Still.turn(d), d);
    }
}

#[test]
fn a_request_for_no_motion_is_never_taken() {
    for d in ALL {
        assert_eq!(d.turn(Direction::Still), d);
    }
}

#[test]
fn turning_follows_the_axis_rule_on_every_pair() {
    for current in ALL {
        for requested in ALL {
            let taken = (requested.x() != 0 && current.x() == 0)
                || (requested.y() != 0 && current.y() == 0);
            let expected = if taken { requested } else { current };
            assert_eq!(current.turn(requested), expected, "{:?} asked {:?}", current, requested);
        }
    }
}
