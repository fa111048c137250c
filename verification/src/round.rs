//! The round: whether it is being played or has been lost, and the score.

use vstd::prelude::*;

verus! {

/// The two states of a round.
#[derive(Clone, Copy, Debug, PartialEq, Eq, Structural)]
pub enum Phase {
    InGame,
    Lost,
}

impl Default for Phase {
    /// A game begins in play.
    fn default() -> (phase: Phase)
        ensures
            phase == Phase::InGame,
    {
        Phase::InGame
    }
}

/// The phase of the round and the number of apples eaten in it.
#[derive(Clone, Copy, Debug, PartialEq, Eq, Structural)]
pub struct RoundState {
    phase: Phase,
    score: usize,
}

impl RoundState {
    /// The phase, for contracts.
    pub closed spec fn spec_phase(self) -> Phase {
        self.phase
    }

    /// The score, for contracts.
    pub closed spec fn spec_score(self) -> nat {
        self.score as nat
    }

    /// A round in play with nothing scored.
    pub fn new() -> (round: RoundState)
        ensures
            round.spec_phase() == Phase::InGame,
            round.spec_score() == 0,
    {
        RoundState { phase: Phase::InGame, score: 0 }
    }

    /// Whether the round is in play or lost.
    pub fn phase(&self) -> (phase: Phase)
        ensures
            phase == self.spec_phase(),
    {
        self.phase
    }

    /// The apples eaten in this round.
    pub fn score(&self) -> (score: usize)
        ensures
            score == self.spec_score(),
    {
        self.score
    }

    /// Counts one apple. The phase stays.
    pub fn award(&mut self)
        requires
            old(self).spec_score() < usize::MAX,
        ensures
            final(self).spec_score() == old(self).spec_score() + 1,
            final(self).spec_phase() == old(self).spec_phase(),
    {
        self.score = self.score + 1;
    }

    /// Takes the result of the loss check: a round in play is lost when the
    /// snake has run into itself, and stays in play when it has not. A lost
    /// round stays lost. The score stays in either case.
    pub fn judge(&mut self, collided: bool)
        ensures
            final(self).spec_phase() == (if collided {
                Phase::Lost
            } else {
                old(self).spec_phase()
            }),
            final(self).spec_score() == old(self).spec_score(),
    {
        if collided {
            self.phase = Phase::Lost;
        }
    }

    /// Starts a lost round again: it is in play with nothing scored, and the
    /// call says so by `true`. A round in play is left as it is.
    pub fn restart(&mut self) -> (restarted: bool)
        ensures
            restarted == (old(self).spec_phase() == Phase::Lost),
            restarted ==> final(self).spec_phase() == Phase::InGame && final(self).spec_score()
                == 0,
            !restarted ==> *final(self) == *old(self),
    {
        match self.phase {
            Phase::Lost => {
                self.phase = Phase::InGame;
                self.score = 0;
                true
            },
            Phase::InGame => false,
        }
    }
}

impl Default for RoundState {
    /// A round in play with nothing scored.
    fn default() -> (round: RoundState)
        ensures
            round.spec_phase() == Phase::InGame,
            round.spec_score() == 0,
    {
        RoundState::new()
    }
}

} // verus!
