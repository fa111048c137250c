use snake::apple::{candidates, differs_from_some, place_apple, place_apple_with};
use snake::body::SnakeBody;
use snake::grid::Grid;
use snake::position::{Axis, Position};

fn at(x: i32, y: i32) -> Position {
    Position { x, y }
}

fn lattice_of_standard_grid() -> Vec<i32> {
    (-20..20).map(|k| k * 10).collect()
}

#[test]
fn differs_from_some_looks_for_another_coordinate() {
    let occupied = vec![at(10, 5), at(10, 6), at(10, 5)];
    assert!(!differs_from_some(&occupied, Axis::X, 10));
    assert!(differs_from_some(&occupied, Axis::X, 11));
    assert!(differs_from_some(&occupied, Axis::Y, 5));
    assert!(differs_from_some(&occupied, Axis::Y, 6));
    assert!(differs_from_some(&occupied, Axis::Y, 7));
}

#[test]
fn differs_from_some_is_false_of_nothing() {
    let occupied: Vec<Position> = Vec::new();
    assert!(!differs_from_some(&occupied, Axis::X, 0));
    assert!(!differs_from_some(&occupied, Axis::Y, 0));
}

#[test]
fn position_along_picks_the_coordinate() {
    assert_eq!(at(3, -4).along(Axis::X), 3);
    assert_eq!(at(3, -4).along(Axis::Y), -4);
}

#[test]
fn candidates_strike_out_the_row_that_holds_the_whole_body() {
    let grid = Grid::standard();
    let occupied = SnakeBody::spawn(&grid).positions();
    let xs = candidates(&grid, &occupied, Axis::X);
    let ys = candidates(&grid, &occupied, Axis::Y);
    assert_eq!(xs, lattice_of_standard_grid());
    let expected_ys: Vec<i32> = lattice_of_standard_grid().into_iter().filter(|y| *y != -200).collect();
    assert_eq!(ys.len(), 39);
    assert_eq!(ys, expected_ys);
}

#[test]
fn candidates_for_a_single_cell_strike_out_its_row_and_column() {
    let grid = Grid::standard();
    let occupied = vec![at(50, -30)];
    let xs = candidates(&grid, &occupied, Axis::X);
    let ys = candidates(&grid, &occupied, Axis::Y);
    assert_eq!(xs.len(), 39);
    assert_eq!(ys.len(), 39);
    assert!(!xs.contains(&50));
    assert!(!ys.contains(&-30));
    assert!(xs.contains(&-30));
    assert!(ys.contains(&50));
}

#[test]
fn candidates_run_from_the_negative_half_extent_up_to_the_positive() {
    let grid = Grid::new(60, 20).unwrap();
    let occupied = vec![at(1, 1), at(2, 2)];
    assert_eq!(candidates(&grid, &occupied, Axis::X), vec![-60, -40, -20, 0, 20, 40]);
    assert_eq!(candidates(&grid, &occupied, Axis::Y), vec![-60, -40, -20, 0, 20, 40]);
}

#[test]
fn candidates_are_none_when_nothing_is_occupied() {
    let grid = Grid::standard();
    let occupied: Vec<Position> = Vec::new();
    assert!(candidates(&grid, &occupied, Axis::X).is_empty());
}

#[test]
fn given_draws_select_among_the_candidates() {
    let grid = Grid::standard();
    let occupied = SnakeBody::spawn(&grid).positions();
    assert_eq!(place_apple_with(&grid, &occupied, 0, 0), at(-200, -190));
    assert_eq!(place_apple_with(&grid, &occupied, 20, 19), at(0, 0));
    assert_eq!(place_apple_with(&grid, &occupied, 39, 38), at(190, 190));
    assert_eq!(place_apple_with(&grid, &occupied, 3, 5), at(-170, -140));
}

#[test]
fn given_draws_are_reduced_modulo_the_number_of_candidates() {
    let grid = Grid::standard();
    let occupied = SnakeBody::spawn(&grid).positions();
    assert_eq!(place_apple_with(&grid, &occupied, 40, 39), at(-200, -190));
    assert_eq!(place_apple_with(&grid, &occupied, 83, 80), at(-170, -170));
    assert_eq!(
        place_apple_with(&grid, &occupied, usize::MAX, usize::MAX),
        at(-200 + 10 * (usize::MAX % 40) as i32, -190 + 10 * (usize::MAX % 39) as i32)
    );
}

#[test]
fn the_apple_may_land_on_an_occupied_cell() {
    // No row and no column holds the whole body, so nothing is struck out.
    let grid = Grid::standard();
    let occupied = vec![at(0, 0), at(10, 0), at(10, 10)];
    assert_eq!(place_apple_with(&grid, &occupied, 20, 20), at(0, 0));
    assert_eq!(place_apple_with(&grid, &occupied, 21, 21), at(10, 10));
}

#[test]
fn random_apple_never_takes_the_row_of_the_whole_body() {
    let grid = Grid::standard();
    let occupied = SnakeBody::spawn(&grid).positions();
    let lattice = lattice_of_standard_grid();
    for _ in 0..2000 {
        let apple = place_apple(&grid, &occupied);
        assert!(lattice.contains(&apple.x));
        assert!(lattice.contains(&apple.y));
        assert_ne!(apple.y, -200);
        let x_matches_all = occupied.iter().all(|p| p.x == apple.x);
        let y_matches_all = occupied.iter().all(|p| p.y == apple.y);
        assert!(!(x_matches_all && y_matches_all));
        assert!(!x_matches_all);
        assert!(!y_matches_all);
    }
}

#[test]
fn random_apple_avoids_row_and_column_of_a_single_cell() {
    let grid = Grid::standard();
    let occupied = vec![at(190, 190)];
    for _ in 0..2000 {
        let apple = place_apple(&grid, &occupied);
        assert_ne!(apple.x, 190);
        assert_ne!(apple.y, 190);
        assert!(-200 <= apple.x && apple.x < 200 && apple.x % 10 == 0);
        assert!(-200 <= apple.y && apple.y < 200 && apple.y % 10 == 0);
    }
}

#[test]
fn random_apple_on_the_smallest_grid_has_one_place_left() {
    // Two cells per axis; the occupied cell strikes out one of each.
    let grid = Grid::new(5, 5).unwrap();
    let occupied = vec![at(-5, 0)];
    for _ in 0..200 {
        assert_eq!(place_apple(&grid, &occupied), at(0, -5));
    }
}

#[test]
fn random_apple_reaches_every_candidate() {
    let grid = Grid::new(20, 10).unwrap();
    let occupied = vec![at(-20, -20), at(-20, -10)];
    let mut seen = std::collections::BTreeSet::new();
    for _ in 0..4000 {
        let apple = place_apple(&grid, &occupied);
        seen.insert((apple.x, apple.y));
    }
    // x: -10, 0, 10 (the column at -20 holds the whole body); y: all four.
    assert_eq!(seen.len(), 12);
    assert!(seen.iter().all(|(x, _)| *x != -20));
}
