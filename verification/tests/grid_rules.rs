use snake::direction::Direction;
use snake::grid::Grid;
use snake::position::Position;

#[test]
fn standard_grid_has_the_classic_dimensions() {
    let grid = Grid::standard();
    assert_eq!(grid.half_extent(), 200);
    assert_eq!(grid.step(), 10);
    assert_eq!(grid.limit(), 210);
    assert_eq!(grid.cells_per_axis(), 40);
    assert_eq!(grid.spawn_len(), 32);
}

#[test]
fn grid_accepts_valid_dimensions() {
    let grid = Grid::new(200, 10).unwrap();
    assert_eq!(grid, Grid::standard());
    let square = Grid::new(7, 7).unwrap();
    assert_eq!((square.half_extent(), square.step(), square.limit()), (7, 7, 14));
    assert_eq!(square.cells_per_axis(), 2);
    let largest = Grid::new(i16::MAX, 1).unwrap();
    assert_eq!(largest.limit(), 32768);
    assert_eq!(largest.cells_per_axis(), 65534);
    assert_eq!(largest.spawn_len(), 5460);
}

#[test]
fn grid_refuses_invalid_dimensions() {
    assert!(Grid::new(200, 0).is_none());
    assert!(Grid::new(200, -10).is_none());
    assert!(Grid::new(0, 10).is_none());
    assert!(Grid::new(-200, 10).is_none());
    assert!(Grid::new(5, 10).is_none());
    assert!(Grid::new(205, 10).is_none());
    assert!(Grid::new(0, 0).is_none());
}

#[test]
fn spawn_len_rounds_a_sixth_of_the_half_extent() {
    // round(h / 6) - 1, and never less than one
    assert_eq!(Grid::new(1, 1).unwrap().spawn_len(), 1);
    assert_eq!(Grid::new(14, 1).unwrap().spawn_len(), 1);
    assert_eq!(Grid::new(15, 1).unwrap().spawn_len(), 2);
    assert_eq!(Grid::new(20, 1).unwrap().spawn_len(), 2);
    assert_eq!(Grid::new(21, 1).unwrap().spawn_len(), 3);
    assert_eq!(Grid::new(60, 10).unwrap().spawn_len(), 9);
    assert_eq!(Grid::new(200, 10).unwrap().spawn_len(), 32);
}

#[test]
fn wrap_at_the_positive_x_wall() {
    let grid = Grid::standard();
    assert_eq!(grid.wrap_axis(210), -200);
    assert_eq!(grid.wrap(Position { x: 210, y: 30 }), Position { x: -200, y: 30 });
}

#[test]
fn wrap_at_the_negative_x_wall() {
    let grid = Grid::standard();
    assert_eq!(grid.wrap_axis(-210), 200);
    assert_eq!(grid.wrap(Position { x: -210, y: 30 }), Position { x: 200, y: 30 });
}

#[test]
fn wrap_at_the_positive_y_wall() {
    let grid = Grid::standard();
    assert_eq!(grid.wrap(Position { x: -40, y: 210 }), Position { x: -40, y: -200 });
}

#[test]
fn wrap_at_the_negative_y_wall() {
    let grid = Grid::standard();
    assert_eq!(grid.wrap(Position { x: -40, y: -210 }), Position { x: -40, y: 200 });
}

#[test]
fn wrap_treats_each_axis_on_its_own() {
    let grid = Grid::standard();
    assert_eq!(grid.wrap(Position { x: 210, y: -210 }), Position { x: -200, y: 200 });
    assert_eq!(grid.wrap(Position { x: -210, y: 210 }), Position { x: 200, y: -200 });
}

#[test]
fn wrap_leaves_the_inside_alone() {
    let grid = Grid::standard();
    for c in [-209, -200, -10, 0, 10, 200, 209] {
        assert_eq!(grid.wrap_axis(c), c);
    }
    assert_eq!(grid.wrap(Position { x: 200, y: -200 }), Position { x: 200, y: -200 });
}

#[test]
fn wrap_brings_far_coordinates_back() {
    let grid = Grid::standard();
    assert_eq!(grid.wrap_axis(211), -200);
    assert_eq!(grid.wrap_axis(i32::MAX), -200);
    assert_eq!(grid.wrap_axis(-211), 200);
    assert_eq!(grid.wrap_axis(i32::MIN), 200);
}

#[test]
fn wrapping_twice_is_wrapping_once() {
    let grid = Grid::new(60, 20).unwrap();
    for c in -200..200 {
        assert_eq!(grid.wrap_axis(grid.wrap_axis(c)), grid.wrap_axis(c));
        assert!(-80 < grid.wrap_axis(c) && grid.wrap_axis(c) < 80);
    }
}

#[test]
fn a_position_moves_by_direction_times_step() {
    let p = Position { x: 30, y: -40 };
    assert_eq!(p.moved(Direction::Right, 10), Position { x: 40, y: -40 });
    assert_eq!(p.moved(Direction::Left, 10), Position { x: 20, y: -40 });
    assert_eq!(p.moved(Direction::Up, 10), Position { x: 30, y: -30 });
    assert_eq!(p.moved(Direction::Down, 10), Position { x: 30, y: -50 });
    assert_eq!(p.moved(Direction::Still, 10), p);
}

#[test]
fn a_step_back_undoes_a_step() {
    let p = Position { x: 30, y: -40 };
    for d in [Direction::Still, Direction::Left, Direction::Right, Direction::Up, Direction::Down] {
        assert_eq!(p.moved(d, 10).moved_back(d, 10), p);
        assert_eq!(
            p.moved_back(d, 10),
            Position { x: 30 - d.x() * 10, y: -40 - d.y() * 10 }
        );
    }
}
