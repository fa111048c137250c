use snake::direction::Direction;
use snake::game::{Game, TickOutcome};
use snake::grid::Grid;
use snake::position::Position;
use snake::round::Phase;

fn at(x: i32, y: i32) -> Position {
    Position { x, y }
}

const QUIET: TickOutcome = TickOutcome { ate: false, lost: false };

/// Steers a new game until the head has just eaten the first apple, which
/// lies at the centre: up the right-hand column, then left along the middle
/// row. The apple then goes where the draws 3 and 5 put it.
fn game_after_first_apple() -> Game {
    let mut game = Game::new(Grid::standard());
    assert_eq!(game.tick_with(Some(Direction::Up), 3, 5), QUIET);
    for _ in 0..19 {
        assert_eq!(game.tick_with(None, 3, 5), QUIET);
    }
    assert_eq!(game.body().head(), at(190, 0));
    assert_eq!(game.tick_with(Some(Direction::Left), 3, 5), QUIET);
    for _ in 0..17 {
        assert_eq!(game.tick_with(None, 3, 5), QUIET);
    }
    assert_eq!(game.body().head(), at(10, 0));
    assert_eq!(game.tick_with(None, 3, 5), TickOutcome { ate: true, lost: false });
    game
}

/// Goes on from there until the head runs into the body.
fn lost_game() -> Game {
    let mut game = game_after_first_apple();
    assert_eq!(game.tick_with(Some(Direction::Down), 0, 0), QUIET);
    assert_eq!(game.tick_with(Some(Direction::Right), 0, 0), QUIET);
    assert_eq!(game.tick_with(Some(Direction::Up), 0, 0), TickOutcome { ate: false, lost: true });
    game
}

#[test]
fn new_game_is_in_play_with_the_apple_at_the_centre() {
    let game = Game::new(Grid::standard());
    assert_eq!(game.phase(), Phase::InGame);
    assert_eq!(game.score(), 0);
    assert_eq!(game.apple(), at(0, 0));
    assert_eq!(game.grid(), Grid::standard());
    assert_eq!(game.body().len(), 32);
    assert_eq!(game.body().head(), at(190, -200));
    assert_eq!(game.body().heading(), Direction::Right);
    assert!(game.body().positions().iter().all(|p| *p != game.apple()));
}

#[test]
fn tick_advances_the_body_by_one_step() {
    let mut game = Game::new(Grid::standard());
    let before = game.body().positions();
    assert_eq!(game.tick_with(None, 0, 0), QUIET);
    let after = game.body().positions();
    assert_eq!(after.len(), 32);
    for i in 0..32 {
        assert_eq!(after[i], at(before[i].x + 10, before[i].y));
    }
    assert_eq!(game.score(), 0);
    assert_eq!(game.apple(), at(0, 0));
    assert_eq!(game.phase(), Phase::InGame);
}

#[test]
fn tick_turns_before_it_advances() {
    let mut game = Game::new(Grid::standard());
    game.tick_with(Some(Direction::Up), 0, 0);
    assert_eq!(game.body().head(), at(190, -190));
    assert_eq!(game.body().position(1), Some(at(190, -200)));
    game.tick_with(Some(Direction::Down), 0, 0);
    assert_eq!(game.body().head(), at(190, -180));
}

#[test]
fn tick_wraps_the_head_round_the_field() {
    let mut game = Game::new(Grid::standard());
    game.tick(None);
    assert_eq!(game.body().head(), at(200, -200));
    game.tick(None);
    assert_eq!(game.body().head(), at(210, -200));
    game.tick(None);
    assert_eq!(game.body().head(), at(-190, -200));
    assert_eq!(game.body().position(1), Some(at(210, -200)));
    assert_eq!(game.phase(), Phase::InGame);
}

#[test]
fn turn_between_ticks_takes_effect_at_the_next_tick() {
    let mut game = Game::new(Grid::standard());
    game.turn(Direction::Left);
    assert_eq!(game.body().heading(), Direction::Right);
    game.turn(Direction::Up);
    assert_eq!(game.body().heading(), Direction::Up);
    assert_eq!(game.body().head(), at(190, -200));
    game.tick(None);
    assert_eq!(game.body().head(), at(190, -190));
}

#[test]
fn wrap_between_ticks_moves_only_what_is_on_a_wall() {
    let mut game = Game::new(Grid::standard());
    game.tick(None);
    game.tick(None);
    let before = game.body().positions();
    assert_eq!(before[0], at(210, -200));
    game.wrap();
    let after = game.body().positions();
    assert_eq!(after[0], at(-200, -200));
    assert_eq!(after[1..], before[1..]);
}

#[test]
fn eating_grows_the_body_by_one_and_scores_one() {
    let game = game_after_first_apple();
    assert_eq!(game.score(), 1);
    assert_eq!(game.phase(), Phase::InGame);
    assert_eq!(game.body().len(), 33);
    assert_eq!(game.body().head(), at(0, 0));
}

#[test]
fn eating_leaves_the_other_segments_where_the_advance_put_them() {
    let mut reference = Game::new(Grid::standard());
    reference.tick_with(Some(Direction::Up), 0, 0);
    for _ in 0..19 {
        reference.tick_with(None, 0, 0);
    }
    reference.tick_with(Some(Direction::Left), 0, 0);
    for _ in 0..17 {
        reference.tick_with(None, 0, 0);
    }
    let before = reference.body().positions();
    let game = game_after_first_apple();
    let after = game.body().positions();
    assert_eq!(after[0], at(0, 0));
    for i in 1..32 {
        assert_eq!(after[i], before[i - 1]);
    }
    // The tail is in the right-hand column, going up; the new segment is
    // one step below it.
    assert_eq!(after[31], at(190, -120));
    assert_eq!(after[32], at(190, -130));
    assert_eq!(game.body().direction(32), Some(Direction::Up));
}

#[test]
fn eating_moves_the_apple_to_the_drawn_candidate() {
    let game = game_after_first_apple();
    assert_eq!(game.apple(), at(-170, -150));
}

#[test]
fn random_tick_moves_the_apple_off_full_rows_and_columns() {
    for _ in 0..50 {
        let mut game = Game::new(Grid::standard());
        game.tick(Some(Direction::Up));
        for _ in 0..19 {
            game.tick(None);
        }
        game.tick(Some(Direction::Left));
        for _ in 0..17 {
            assert_eq!(game.tick(None), QUIET);
        }
        assert_eq!(game.tick(None), TickOutcome { ate: true, lost: false });
        assert_eq!(game.score(), 1);
        assert_eq!(game.body().len(), 33);
        let apple = game.apple();
        assert!(-200 <= apple.x && apple.x < 200 && apple.x % 10 == 0);
        assert!(-200 <= apple.y && apple.y < 200 && apple.y % 10 == 0);
        let body = game.body().positions();
        assert!(body.iter().any(|p| p.x != apple.x));
        assert!(body.iter().any(|p| p.y != apple.y));
    }
}

#[test]
fn running_into_the_body_loses_the_round() {
    let game = lost_game();
    assert_eq!(game.phase(), Phase::Lost);
    assert_eq!(game.score(), 1);
    assert_eq!(game.body().head(), at(10, 0));
    assert_eq!(game.body().position(4), Some(at(10, 0)));
    assert!(game.body().self_collision());
}

#[test]
fn a_lost_round_does_not_move() {
    let mut game = lost_game();
    let positions = game.body().positions();
    let heading = game.body().heading();
    let apple = game.apple();
    assert_eq!(game.tick(Some(Direction::Left)), QUIET);
    assert_eq!(game.tick_with(None, 1, 1), QUIET);
    game.turn(Direction::Left);
    game.wrap();
    assert_eq!(game.body().positions(), positions);
    assert_eq!(game.body().heading(), heading);
    assert_eq!(game.apple(), apple);
    assert_eq!(game.phase(), Phase::Lost);
    assert_eq!(game.score(), 1);
}

#[test]
fn reset_starts_the_round_afresh() {
    let mut game = lost_game();
    assert!(game.reset());
    assert_eq!(game.phase(), Phase::InGame);
    assert_eq!(game.score(), 0);
    assert_eq!(game.body().len(), 32);
    assert_eq!(game.apple(), at(0, 0));
    assert!(game.body().positions().iter().all(|p| *p != game.apple()));
    let fresh = Game::new(Grid::standard());
    assert_eq!(game.body().positions(), fresh.body().positions());
    assert_eq!(game.body().heading(), Direction::Right);
    assert_eq!(game.tick(None), QUIET);
    assert_eq!(game.body().head(), at(200, -200));
}

#[test]
fn reset_leaves_a_round_in_play_alone() {
    let mut game = game_after_first_apple();
    let positions = game.body().positions();
    assert!(!game.reset());
    assert_eq!(game.score(), 1);
    assert_eq!(game.phase(), Phase::InGame);
    assert_eq!(game.body().positions(), positions);
    assert_eq!(game.apple(), at(-170, -150));
}

#[test]
fn score_counts_the_segments_grown() {
    let mut game = game_after_first_apple();
    for _ in 0..40 {
        game.tick_with(None, 7, 7);
        assert_eq!(game.body().len(), 32 + game.score());
    }
}

#[test]
fn every_state_of_a_game_is_well_formed() {
    let mut game = Game::new(Grid::standard());
    assert!(game.is_well_formed());
    assert!(game.grid().is_well_formed());
    assert!(game.body().is_well_formed());
    let mut lost = lost_game();
    assert!(lost.is_well_formed());
    lost.reset();
    assert!(lost.is_well_formed());
    for k in 0..200 {
        let intent = match k % 7 {
            0 => Some(Direction::Up),
            3 => Some(Direction::Left),
            5 => Some(Direction::Down),
            6 => Some(Direction::Right),
            _ => None,
        };
        game.tick(intent);
        assert!(game.is_well_formed());
        if game.reset() {
            assert_eq!(game.score(), 0);
        }
    }
}
