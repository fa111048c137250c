//! The whole simulation: the field, the body, the apple and the round, and
//! the tick that takes them from one state to the next.

use vstd::prelude::*;
use crate::apple::{apple_for_draws, may_hold_apple, place_apple, place_apple_with};
use crate::body::{SnakeBody, SnakeModel};
use crate::direction::Direction;
use crate::grid::Grid;
use crate::position::{Cell, Position};
use crate::round::{Phase, RoundState};

verus! {

/// The game as contracts see it.
pub struct GameModel {
    pub grid: Grid,
    pub body: SnakeModel,
    pub apple: Cell,
    pub phase: Phase,
    pub score: nat,
}

impl GameModel {
    /// The field is valid, the body is well formed, and the body has grown
    /// by exactly one segment for each apple scored in the round.
    pub open spec fn wf(self) -> bool {
        &&& self.grid.wf()
        &&& self.body.wf()
        &&& self.body.len() == self.grid.spec_spawn_len() + self.score
    }

    /// Every segment and the apple lie on multiples of the step.
    pub open spec fn aligned(self) -> bool {
        &&& self.body.aligned(self.grid.spec_step())
        &&& self.apple.aligned(self.grid.spec_step())
    }

    /// The state in which every round begins: the initial body, the apple at
    /// the centre of the field, nothing scored, in play.
    pub open spec fn initial(grid: Grid) -> GameModel {
        GameModel {
            grid,
            body: SnakeModel::initial(grid),
            apple: Cell { x: 0, y: 0 },
            phase: Phase::InGame,
            score: 0,
        }
    }

    /// The body wrapped round the field, while the round is in play.
    pub open spec fn wrap(self) -> GameModel {
        if self.phase == Phase::InGame {
            GameModel { body: self.body.wrap(self.grid), ..self }
        } else {
            self
        }
    }

    /// A request to turn the head, while the round is in play.
    pub open spec fn turn(self, requested: Direction) -> GameModel {
        if self.phase == Phase::InGame {
            GameModel { body: self.body.turn(requested), ..self }
        } else {
            self
        }
    }

    /// The body after the first three steps of a tick: wrapped, then turned
    /// if there is a request, then advanced.
    pub open spec fn moved_body(self, intent: Option<Direction>) -> SnakeModel {
        self.body.tick(self.grid, intent)
    }

    /// After those steps the head lies on the apple.
    pub open spec fn eats(self, intent: Option<Direction>) -> bool {
        self.moved_body(intent).head() == self.apple
    }

    /// The body at the end of a tick: moved, and grown if the apple was
    /// reached.
    pub open spec fn ticked_body(self, intent: Option<Direction>) -> SnakeModel {
        if self.eats(intent) {
            self.moved_body(intent).grow(self.grid.spec_step())
        } else {
            self.moved_body(intent)
        }
    }

    /// One tick of a round in play, given the cell that the apple takes if
    /// it is eaten: wrap, turn, advance; if the head then lies on the apple
    /// the body grows, the apple moves and one point is scored; and if the
    /// head then lies on another segment the round is lost. A lost round
    /// does not tick.
    pub open spec fn tick_to(self, intent: Option<Direction>, next_apple: Cell) -> GameModel {
        if self.phase == Phase::Lost {
            self
        } else {
            GameModel {
                grid: self.grid,
                body: self.ticked_body(intent),
                apple: if self.eats(intent) {
                    next_apple
                } else {
                    self.apple
                },
                phase: if self.ticked_body(intent).collides() {
                    Phase::Lost
                } else {
                    Phase::InGame
                },
                score: if self.eats(intent) {
                    self.score + 1
                } else {
                    self.score
                },
            }
        }
    }

    /// One tick in which two given numbers select the next apple among the
    /// places that the grown body leaves for it.
    pub open spec fn tick_with(
        self,
        intent: Option<Direction>,
        x_draw: nat,
        y_draw: nat,
    ) -> GameModel {
        self.tick_to(
            intent,
            apple_for_draws(self.grid, self.ticked_body(intent).cells, x_draw, y_draw),
        )
    }

    /// A lost round started again; a round in play is left as it is.
    pub open spec fn reset(self) -> GameModel {
        if self.phase == Phase::Lost {
            GameModel::initial(self.grid)
        } else {
            self
        }
    }
}

/// What one tick did.
#[derive(Clone, Copy, Debug, PartialEq, Eq, Structural)]
pub struct TickOutcome {
    /// The head reached the apple: the body grew, the apple moved and the
    /// score went up by one.
    pub ate: bool,
    /// The head ran into the body: the round went from play to lost.
    pub lost: bool,
}

/// The state of the simulation.
#[derive(Debug)]
pub struct Game {
    grid: Grid,
    body: SnakeBody,
    apple: Position,
    round: RoundState,
}

impl View for Game {
    type V = GameModel;

    closed spec fn view(&self) -> GameModel {
        GameModel {
            grid: self.grid,
            body: self.body@,
            apple: self.apple@,
            phase: self.round.spec_phase(),
            score: self.round.spec_score(),
        }
    }
}

impl Game {
    /// What [`GameModel::wf`] says of the state. Every operation keeps it.
    pub open spec fn wf(&self) -> bool {
        self@.wf()
    }

    /// A game at the beginning of its first round.
    pub fn new(grid: Grid) -> (game: Game)
        requires
            grid.wf(),
        ensures
            game.wf(),
            game@ == GameModel::initial(grid),
    {
        let body = SnakeBody::spawn(&grid);
        Game { grid, body, apple: Position { x: 0, y: 0 }, round: RoundState::new() }
    }

    /// Tests whether the state is well formed, for callers that cannot
    /// know.
    pub fn is_well_formed(&self) -> (ok: bool)
        ensures
            ok == self.wf(),
    {
        if !self.grid.is_well_formed() || !self.body.is_well_formed() {
            return false;
        }
        let initial = self.grid.spawn_len();
        let len = self.body.len();
        len >= initial && len - initial == self.round.score()
    }

    /// The field.
    pub fn grid(&self) -> (grid: Grid)
        ensures
            grid == self@.grid,
    {
        self.grid
    }

    /// The body of the snake.
    pub fn body(&self) -> (body: &SnakeBody)
        ensures
            body@ == self@.body,
    {
        &self.body
    }

    /// Where the apple lies.
    pub fn apple(&self) -> (apple: Position)
        ensures
            apple@ == self@.apple,
    {
        self.apple
    }

    /// Whether the round is in play or lost.
    pub fn phase(&self) -> (phase: Phase)
        ensures
            phase == self@.phase,
    {
        self.round.phase()
    }

    /// The apples eaten in this round.
    pub fn score(&self) -> (score: usize)
        ensures
            score == self@.score,
    {
        self.round.score()
    }

    /// Wraps the body round the field. Nothing happens in a lost round.
    pub fn wrap(&mut self)
        requires
            old(self).wf(),
        ensures
            final(self)@ == old(self)@.wrap(),
            final(self).wf(),
    {
        match self.round.phase() {
            Phase::InGame => {
                let grid = self.grid;
                self.body.wrap(&grid);
            },
            Phase::Lost => {},
        }
    }

    /// Asks the head to turn. Nothing happens in a lost round.
    pub fn turn(&mut self, requested: Direction)
        requires
            old(self).wf(),
        ensures
            final(self)@ == old(self)@.turn(requested),
            final(self).wf(),
    {
        match self.round.phase() {
            Phase::InGame => {
                self.body.turn(requested);
            },
            Phase::Lost => {},
        }
    }

    /// The first four steps of a tick, short of the apple's new place:
    /// wrap, turn, advance, and growth if the head has reached the apple.
    fn move_and_grow(&mut self, intent: Option<Direction>) -> (ate: bool)
        requires
            old(self).wf(),
        ensures
            ate == old(self)@.eats(intent),
            final(self)@ == (GameModel { body: old(self)@.ticked_body(intent), ..old(self)@ }),
            final(self)@.body.wf(),
            final(self)@.body.len() == old(self)@.body.len() + if ate {
                1nat
            } else {
                0nat
            },
    {
        let grid = self.grid;
        self.body.tick(&grid, intent);
        let ate = self.body.head() == self.apple;
        if ate {
            self.body.grow(&grid);
        }
        ate
    }

    /// The end of a tick: if the apple was eaten it takes its new place and
    /// one point is scored; then the loss check.
    fn settle(&mut self, ate: bool, next_apple: Position) -> (outcome: TickOutcome)
        requires
            old(self)@.body.wf(),
            old(self)@.phase == Phase::InGame,
            ate ==> old(self)@.score < usize::MAX,
        ensures
            outcome.ate == ate,
            outcome.lost == old(self)@.body.collides(),
            final(self)@ == (GameModel {
                apple: if ate {
                    next_apple@
                } else {
                    old(self)@.apple
                },
                score: if ate {
                    old(self)@.score + 1
                } else {
                    old(self)@.score
                },
                phase: if old(self)@.body.collides() {
                    Phase::Lost
                } else {
                    Phase::InGame
                },
                ..old(self)@
            }),
    {
        if ate {
            self.apple = next_apple;
            self.round.award();
        }
        let lost = self.body.self_collision();
        self.round.judge(lost);
        TickOutcome { ate, lost }
    }

    /// One tick, with the next apple chosen at random among the places that
    /// the body leaves for it.
    ///
    /// All but the apple's new place is fixed by the state and the request.
    /// Of that place the contract says what holds of every choice: it is a
    /// place that the grown body allows, and the tick is the one that
    /// [`Game::tick_with`] makes for some pair of numbers.
    pub fn tick(&mut self, intent: Option<Direction>) -> (outcome: TickOutcome)
        requires
            old(self).wf(),
        ensures
            final(self).wf(),
            final(self)@ == old(self)@.tick_to(intent, final(self)@.apple),
            outcome.ate == (old(self)@.phase == Phase::InGame && old(self)@.eats(intent)),
            outcome.lost == (old(self)@.phase == Phase::InGame && final(self)@.phase
                == Phase::Lost),
            outcome.ate ==> may_hold_apple(
                final(self)@.grid,
                final(self)@.body.cells,
                final(self)@.apple,
            ),
            exists|x_draw: nat, y_draw: nat|
                final(self)@ == #[trigger] old(self)@.tick_with(intent, x_draw, y_draw),
    {
        match self.round.phase() {
            Phase::Lost => {
                assert(self@ == old(self)@.tick_with(intent, 0, 0));
                TickOutcome { ate: false, lost: false }
            },
            Phase::InGame => {
                let ate = self.move_and_grow(intent);
                let next_apple = if ate {
                    let occupied = self.body.positions();
                    assert(occupied.len() <= usize::MAX);
                    place_apple(&self.grid, &occupied)
                } else {
                    self.apple
                };
                let outcome = self.settle(ate, next_apple);
                proof {
                    if ate {
                        let (x_draw, y_draw) = choose|x_draw: nat, y_draw: nat|
                            next_apple@ == #[trigger] apple_for_draws(
                                self.grid,
                                self.body@.cells,
                                x_draw,
                                y_draw,
                            );
                        assert(self@ == old(self)@.tick_with(intent, x_draw, y_draw));
                    } else {
                        assert(self@ == old(self)@.tick_with(intent, 0, 0));
                    }
                }
                outcome
            },
        }
    }

    /// One tick, with the next apple selected by two given numbers: the
    /// tick of a game whose source of chance is in the caller's hand.
    pub fn tick_with(&mut self, intent: Option<Direction>, x_draw: usize, y_draw: usize) -> (outcome:
        TickOutcome)
        requires
            old(self).wf(),
        ensures
            final(self).wf(),
            final(self)@ == old(self)@.tick_with(intent, x_draw as nat, y_draw as nat),
            outcome.ate == (old(self)@.phase == Phase::InGame && old(self)@.eats(intent)),
            outcome.lost == (old(self)@.phase == Phase::InGame && final(self)@.phase
                == Phase::Lost),
    {
        match self.round.phase() {
            Phase::Lost => TickOutcome { ate: false, lost: false },
            Phase::InGame => {
                let ate = self.move_and_grow(intent);
                let next_apple = if ate {
                    let occupied = self.body.positions();
                    assert(occupied.len() <= usize::MAX);
                    place_apple_with(&self.grid, &occupied, x_draw, y_draw)
                } else {
                    self.apple
                };
                self.settle(ate, next_apple)
            },
        }
    }

    /// Starts a lost round again and says so by `true`: the body is the
    /// initial one, the apple lies at the centre, nothing is scored, and the
    /// round is in play. A round in play is left as it is.
    pub fn reset(&mut self) -> (restarted: bool)
        requires
            old(self).wf(),
        ensures
            final(self).wf(),
            restarted == (old(self)@.phase == Phase::Lost),
            final(self)@ == old(self)@.reset(),
    {
        if self.round.restart() {
            self.body = SnakeBody::spawn(&self.grid);
            self.apple = Position { x: 0, y: 0 };
            true
        } else {
            false
        }
    }
}

/// A tick keeps the game well formed: the body has one direction for each
/// segment, before the tick and after it, and its length is still the
/// initial length plus the score.
pub proof fn tick_keeps_game_well_formed(
    game: GameModel,
    intent: Option<Direction>,
    next_apple: Cell,
)
    requires
        game.wf(),
    ensures
        game.tick_to(intent, next_apple).wf(),
        game.moved_body(intent).wf(),
        game.moved_body(intent).cells.len() == game.body.cells.len(),
        game.tick_to(intent, next_apple).body.cells.len() == game.tick_to(
            intent,
            next_apple,
        ).body.directions.len(),
        game.tick_to(intent, next_apple).grid == game.grid,
{
}

/// A tick in which the apple is eaten adds exactly one segment and one
/// point, and the segments that were there lie where the advance put them.
/// A tick in which it is not eaten changes neither the length of the body,
/// nor the score, nor the apple.
pub proof fn eating_grows_by_one(game: GameModel, intent: Option<Direction>, next_apple: Cell)
    requires
        game.wf(),
        game.phase == Phase::InGame,
    ensures
        game.eats(intent) ==> {
            &&& game.tick_to(intent, next_apple).body.len() == game.body.len() + 1
            &&& game.tick_to(intent, next_apple).score == game.score + 1
            &&& game.tick_to(intent, next_apple).apple == next_apple
            &&& forall|i: int|
                0 <= i < game.body.len() ==> #[trigger] game.tick_to(intent, next_apple).body.cells[i]
                    == game.moved_body(intent).cells[i]
        },
        !game.eats(intent) ==> {
            &&& game.tick_to(intent, next_apple).body == game.moved_body(intent)
            &&& game.tick_to(intent, next_apple).body.len() == game.body.len()
            &&& game.tick_to(intent, next_apple).score == game.score
            &&& game.tick_to(intent, next_apple).apple == game.apple
        },
{
}

/// A round goes from play to lost exactly when, at the end of a tick, the
/// head lies on another segment; the score is not touched by that.
pub proof fn round_is_lost_on_collision(
    game: GameModel,
    intent: Option<Direction>,
    next_apple: Cell,
)
    requires
        game.phase == Phase::InGame,
    ensures
        game.tick_to(intent, next_apple).phase == Phase::Lost <==> game.ticked_body(
            intent,
        ).collides(),
{
}

/// In a lost round nothing moves: a tick, a wrap and a turn all leave the
/// state as it is.
pub proof fn lost_round_stands_still(
    game: GameModel,
    intent: Option<Direction>,
    requested: Direction,
    next_apple: Cell,
)
    requires
        game.phase == Phase::Lost,
    ensures
        game.tick_to(intent, next_apple) == game,
        game.wrap() == game,
        game.turn(requested) == game,
{
}

/// After a lost round is started again it is in play, nothing is scored, the
/// body has the initial length, and the apple lies on no segment. The state
/// is well formed, and it is the state in which the first round began.
pub proof fn reset_starts_afresh(game: GameModel)
    requires
        game.grid.wf(),
        game.phase == Phase::Lost,
    ensures
        game.reset().phase == Phase::InGame,
        game.reset().score == 0,
        game.reset().body.len() == game.grid.spec_spawn_len(),
        forall|i: int|
            0 <= i < game.reset().body.len() ==> #[trigger] game.reset().body.cells[i]
                != game.reset().apple,
        game.reset().wf(),
        game.reset() == GameModel::initial(game.grid),
{
}

/// The centre, where the apple lies when a round begins, is a place that
/// the initial body allows an apple to take, on every field that is wider
/// than one step.
pub proof fn centre_is_a_lawful_place(grid: Grid)
    requires
        grid.wf(),
        grid.spec_half_extent() > grid.spec_step(),
    ensures
        may_hold_apple(grid, GameModel::initial(grid).body.cells, GameModel::initial(grid).apple),
{
    let cells = SnakeModel::initial(grid).cells;
    let centre = Cell { x: 0, y: 0 };
    let step = grid.spec_step();
    assert(0int % step == 0) by (nonlinear_arith)
        requires
            step > 0,
    ;
    crate::grid::lattice_is_the_multiples_of_step(grid, 0);
    crate::apple::may_hold_apple_means(grid, cells, centre);
    assert(1 * step == step) by (nonlinear_arith);
    assert(cells[0].along(crate::position::Axis::X) != 0);
    assert(cells[0].along(crate::position::Axis::Y) != 0);
}

/// When a tick with given numbers eats the apple, the new apple lies where
/// the grown body allows one.
pub proof fn tick_with_places_apple_lawfully(
    game: GameModel,
    intent: Option<Direction>,
    x_draw: nat,
    y_draw: nat,
)
    requires
        game.wf(),
        game.phase == Phase::InGame,
        game.eats(intent),
    ensures
        may_hold_apple(
            game.grid,
            game.tick_with(intent, x_draw, y_draw).body.cells,
            game.tick_with(intent, x_draw, y_draw).apple,
        ),
{
    crate::apple::drawn_apple_may_be_held(
        game.grid,
        game.ticked_body(intent).cells,
        x_draw,
        y_draw,
    );
}

/// The game never leaves the multiples of the step: the state in which a
/// round begins lies on them, and a tick with given numbers keeps a state
/// on them, so that a head and an apple that meet are on the very same
/// cell.
pub proof fn game_keeps_to_the_lattice(
    game: GameModel,
    intent: Option<Direction>,
    x_draw: nat,
    y_draw: nat,
)
    requires
        game.wf(),
        game.aligned(),
    ensures
        GameModel::initial(game.grid).aligned(),
        game.tick_with(intent, x_draw, y_draw).aligned(),
        game.wrap().aligned(),
        game.reset().aligned(),
{
    let grid = game.grid;
    let step = grid.spec_step();
    crate::body::initial_body_is_aligned(grid);
    assert(0int % step == 0) by (nonlinear_arith)
        requires
            step > 0,
    ;
    crate::body::motions_keep_body_aligned(game.body, grid, intent);
    let moved = game.moved_body(intent);
    crate::body::motions_keep_body_aligned(moved, grid, intent);
    if game.phase == Phase::InGame && game.eats(intent) {
        let grown = game.ticked_body(intent);
        crate::apple::drawn_apple_may_be_held(grid, grown.cells, x_draw, y_draw);
        let next = apple_for_draws(grid, grown.cells, x_draw, y_draw);
        crate::apple::may_hold_apple_means(grid, grown.cells, next);
        crate::grid::lattice_is_the_multiples_of_step(grid, next.x);
        crate::grid::lattice_is_the_multiples_of_step(grid, next.y);
    }
}

} // verus!
