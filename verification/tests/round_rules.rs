use snake::round::{Phase, RoundState};

#[test]
fn a_round_begins_in_play_with_no_score() {
    let round = RoundState::new();
    assert_eq!(round.phase(), Phase::InGame);
    assert_eq!(round.score(), 0);
    assert_eq!(RoundState::default(), round);
    assert_eq!(Phase::default(), Phase::InGame);
}

#[test]
fn award_counts_one_apple() {
    let mut round = RoundState::new();
    round.award();
    assert_eq!(round.score(), 1);
    round.award();
    round.award();
    assert_eq!(round.score(), 3);
    assert_eq!(round.phase(), Phase::InGame);
}

#[test]
fn judge_loses_the_round_on_collision_only() {
    let mut round = RoundState::new();
    round.award();
    round.judge(false);
    assert_eq!(round.phase(), Phase::InGame);
    round.judge(true);
    assert_eq!(round.phase(), Phase::Lost);
    assert_eq!(round.score(), 1);
    round.judge(false);
    assert_eq!(round.phase(), Phase::Lost);
}

#[test]
fn restart_returns_a_lost_round_to_play_with_no_score() {
    let mut round = RoundState::new();
    round.award();
    round.award();
    round.judge(true);
    assert!(round.restart());
    assert_eq!(round.phase(), Phase::InGame);
    assert_eq!(round.score(), 0);
}

#[test]
fn restart_leaves_a_round_in_play_alone() {
    let mut round = RoundState::new();
    round.award();
    assert!(!round.restart());
    assert_eq!(round.phase(), Phase::InGame);
    assert_eq!(round.score(), 1);
}
