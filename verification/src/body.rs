//! The body of the snake: its segments, the direction each will move in
//! next, and the operations that move, turn, grow and wrap it.

use std::collections::VecDeque;
use vstd::prelude::*;
use crate::direction::Direction;
use crate::grid::Grid;
use crate::position::{cells_of, Cell, Position};

verus! {

/// The body as contracts see it: the cells of the segments from head to tail,
/// and beside each the direction in which that segment moves at the next
/// advance.
pub struct SnakeModel {
    pub cells: Seq<Cell>,
    pub directions: Seq<Direction>,
}

impl SnakeModel {
    /// There is a head, and every segment has its direction.
    pub open spec fn wf(self) -> bool {
        &&& self.cells.len() == self.directions.len()
        &&& self.cells.len() >= 1
    }

    /// The number of segments.
    pub open spec fn len(self) -> nat {
        self.cells.len()
    }

    /// The cell of the first segment.
    pub open spec fn head(self) -> Cell {
        self.cells[0]
    }

    /// The cell of the last segment.
    pub open spec fn tail(self) -> Cell {
        self.cells.last()
    }

    /// The body with which a round begins: all segments in the bottom row,
    /// the head one step left of the right-hand edge, each further segment
    /// one step further left, all heading right.
    pub open spec fn initial(grid: Grid) -> SnakeModel {
        SnakeModel {
            cells: Seq::new(
                grid.spec_spawn_len(),
                |k: int|
                    Cell {
                        x: grid.spec_half_extent() - (k + 1) * grid.spec_step(),
                        y: -grid.spec_half_extent(),
                    },
            ),
            directions: Seq::new(grid.spec_spawn_len(), |k: int| Direction::Right),
        }
    }

    /// A request to turn: only the head's direction can change, and it does
    /// as the turning rule says.
    pub open spec fn turn(self, requested: Direction) -> SnakeModel {
        SnakeModel {
            cells: self.cells,
            directions: self.directions.update(0, self.directions[0].turned(requested)),
        }
    }

    /// One advance: every segment takes one step in its own direction; then
    /// the directions are handed back along the body, so that each segment
    /// will next move as the one ahead of it just did. The head keeps its
    /// direction and the last direction is dropped.
    pub open spec fn advance(self, step: int) -> SnakeModel {
        SnakeModel {
            cells: Seq::new(
                self.cells.len(),
                |i: int| self.cells[i].moved(self.directions[i], step),
            ),
            directions: seq![self.directions[0]] + self.directions.drop_last(),
        }
    }

    /// Growth by one segment: it is put one step behind the tail, against
    /// the tail's direction, and is given that same direction.
    pub open spec fn grow(self, step: int) -> SnakeModel {
        SnakeModel {
            cells: self.cells.push(self.cells.last().moved_back(self.directions.last(), step)),
            directions: self.directions.push(self.directions.last()),
        }
    }

    /// Every segment wrapped round the field; directions stay.
    pub open spec fn wrap(self, grid: Grid) -> SnakeModel {
        SnakeModel {
            cells: Seq::new(self.cells.len(), |i: int| grid.wrap_cell(self.cells[i])),
            directions: self.directions,
        }
    }

    /// The motions of one tick in their fixed order: wrap, then turn if
    /// there is a request, then advance.
    pub open spec fn tick(self, grid: Grid, intent: Option<Direction>) -> SnakeModel {
        let wrapped = self.wrap(grid);
        let turned = match intent {
            Some(requested) => wrapped.turn(requested),
            None => wrapped,
        };
        turned.advance(grid.spec_step())
    }

    /// The body after a run of ticks, one request or none for each.
    pub open spec fn run(self, grid: Grid, intents: Seq<Option<Direction>>) -> SnakeModel
        decreases intents.len(),
    {
        if intents.len() == 0 {
            self
        } else {
            self.run(grid, intents.drop_last()).tick(grid, intents.last())
        }
    }

    /// The head lies on the cell of another segment.
    pub open spec fn collides(self) -> bool {
        exists|i: int| 1 <= i < self.cells.len() && #[trigger] self.cells[i] == self.head()
    }

    /// No two segments share a cell.
    pub open spec fn all_distinct(self) -> bool {
        forall|i: int, j: int|
            0 <= i < j < self.cells.len() ==> #[trigger] self.cells[i] != #[trigger] self.cells[j]
    }

    /// Every segment can take its next step without leaving the range of a
    /// [`Position`].
    pub open spec fn can_advance(self, step: int) -> bool {
        forall|i: int|
            0 <= i < self.cells.len() ==> (#[trigger] self.cells[i]).moved(
                self.directions[i],
                step,
            ).representable()
    }

    /// The cell behind the tail is within the range of a [`Position`].
    pub open spec fn can_grow(self, step: int) -> bool {
        self.cells.last().moved_back(self.directions.last(), step).representable()
    }

    /// The coordinates of every segment are multiples of `step`.
    pub open spec fn aligned(self, step: int) -> bool {
        forall|i: int| 0 <= i < self.cells.len() ==> (#[trigger] self.cells[i]).aligned(step)
    }

    /// Every segment lies strictly between the walls.
    pub open spec fn inside(self, grid: Grid) -> bool {
        forall|i: int| 0 <= i < self.cells.len() ==> grid.between_walls(#[trigger] self.cells[i])
    }

    /// Every segment lies between the walls or on one.
    pub open spec fn within_walls(self, grid: Grid) -> bool {
        forall|i: int| 0 <= i < self.cells.len() ==> grid.within_walls(#[trigger] self.cells[i])
    }

    /// Every segment but the head is about to step onto the place of the
    /// segment ahead of it, on the field closed on itself: onto its cell, or
    /// onto the cell that a wall identifies with it.
    pub open spec fn linked_round(self, grid: Grid) -> bool {
        forall|i: int|
            1 <= i < self.cells.len() ==> grid.same_place(
                (#[trigger] self.cells[i]).moved(self.directions[i], grid.spec_step()),
                self.cells[i - 1],
            )
    }

    /// Every segment but the head, once wrapped, is about to step onto the
    /// cell of the segment ahead of it: what a tick makes of a linked body.
    pub open spec fn trailing(self, grid: Grid) -> bool {
        forall|i: int|
            1 <= i < self.cells.len() ==> grid.wrap_cell(#[trigger] self.cells[i]).moved(
                self.directions[i],
                grid.spec_step(),
            ) == self.cells[i - 1]
    }

    /// Every segment but the head is about to step onto the cell of the
    /// segment ahead of it.
    pub open spec fn linked(self, step: int) -> bool {
        forall|i: int|
            1 <= i < self.cells.len() ==> (#[trigger] self.cells[i]).moved(
                self.directions[i],
                step,
            ) == self.cells[i - 1]
    }
}

/// The body of the snake. Index 0 is the head, the last index the tail;
/// segments are only ever added at the tail.
#[derive(Debug)]
pub struct SnakeBody {
    segments: Vec<Position>,
    directions: VecDeque<Direction>,
}

impl View for SnakeBody {
    type V = SnakeModel;

    closed spec fn view(&self) -> SnakeModel {
        SnakeModel { cells: cells_of(self.segments@), directions: self.directions@ }
    }
}

impl SnakeBody {
    /// There is a head, and every segment has its direction. Every
    /// operation keeps this.
    pub open spec fn wf(&self) -> bool {
        self@.wf()
    }

    /// A body of one segment.
    pub fn new(head: Position, heading: Direction) -> (body: SnakeBody)
        ensures
            body.wf(),
            body@.cells == seq![head@],
            body@.directions == seq![heading],
    {
        let mut segments: Vec<Position> = Vec::new();
        let mut directions: VecDeque<Direction> = VecDeque::new();
        segments.push(head);
        directions.push_back(heading);
        let body = SnakeBody { segments, directions };
        assert(body@.cells =~= seq![head@]);
        body
    }

    /// Adds a segment at the tail, at a place and with a direction of the
    /// caller's choosing.
    pub fn push_segment(&mut self, position: Position, heading: Direction)
        ensures
            final(self)@.cells == old(self)@.cells.push(position@),
            final(self)@.directions == old(self)@.directions.push(heading),
            old(self).wf() ==> final(self).wf(),
    {
        self.segments.push(position);
        self.directions.push_back(heading);
        assert(self@.cells =~= old(self)@.cells.push(position@));
    }

    /// The body with which a round begins.
    pub fn spawn(grid: &Grid) -> (body: SnakeBody)
        requires
            grid.wf(),
        ensures
            body.wf(),
            body@ == SnakeModel::initial(*grid),
    {
        let count = grid.spawn_len();
        let h = grid.half_extent();
        let step = grid.step();
        let mut segments: Vec<Position> = Vec::new();
        let mut directions: VecDeque<Direction> = VecDeque::new();
        let mut x: i32 = h;
        let mut k: usize = 0;
        while k < count
            invariant
                k <= count <= 5461,
                0 < step <= h <= i16::MAX,
                h == grid.spec_half_extent(),
                step == grid.spec_step(),
                x == h - k * step,
                segments@.len() == k,
                directions@.len() == k,
                forall|j: int|
                    0 <= j < k ==> (#[trigger] segments@[j])@ == (Cell {
                        x: h - (j + 1) * step,
                        y: -(h as int),
                    }),
                forall|j: int| 0 <= j < k ==> #[trigger] directions@[j] == Direction::Right,
            decreases count - k,
        {
            assert((k + 1) * step == k * step + step) by (nonlinear_arith);
            assert(0 <= k * step <= 5461 * 32767) by (nonlinear_arith)
                requires
                    0 <= k <= 5461,
                    0 < step <= 32767,
            ;
            x = x - step;
            segments.push(Position { x, y: -h });
            directions.push_back(Direction::Right);
            k += 1;
        }
        let body = SnakeBody { segments, directions };
        assert(body@.cells =~= SnakeModel::initial(*grid).cells);
        assert(body@.directions =~= SnakeModel::initial(*grid).directions);
        body
    }

    /// Tests whether the body is well formed, for callers that cannot
    /// know.
    pub fn is_well_formed(&self) -> (ok: bool)
        ensures
            ok == self.wf(),
    {
        self.segments.len() >= 1 && self.segments.len() == self.directions.len()
    }

    /// The number of segments.
    pub fn len(&self) -> (n: usize)
        ensures
            n == self@.cells.len(),
    {
        self.segments.len()
    }

    /// Where the head is.
    pub fn head(&self) -> (p: Position)
        requires
            self.wf(),
        ensures
            p@ == self@.cells[0],
    {
        self.segments[0]
    }

    /// The direction in which the head moves at the next advance.
    pub fn heading(&self) -> (d: Direction)
        requires
            self.wf(),
        ensures
            d == self@.directions[0],
    {
        self.directions[0]
    }

    /// Where segment `index` is, if there is such a segment.
    pub fn position(&self, index: usize) -> (p: Option<Position>)
        ensures
            index < self@.cells.len() ==> p is Some && p->0@ == self@.cells[index as int],
            index >= self@.cells.len() ==> p is None,
    {
        if index < self.segments.len() {
            Some(self.segments[index])
        } else {
            None
        }
    }

    /// The direction in which segment `index` moves at the next advance, if
    /// there is such a segment.
    pub fn direction(&self, index: usize) -> (d: Option<Direction>)
        ensures
            index < self@.directions.len() ==> d == Some(self@.directions[index as int]),
            index >= self@.directions.len() ==> d is None,
    {
        if index < self.directions.len() {
            Some(self.directions[index])
        } else {
            None
        }
    }

    /// The positions of all segments, head first.
    pub fn positions(&self) -> (all: Vec<Position>)
        ensures
            cells_of(all@) == self@.cells,
    {
        let mut all: Vec<Position> = Vec::new();
        let n = self.segments.len();
        let mut i: usize = 0;
        while i < n
            invariant
                i <= n,
                n == self.segments@.len(),
                all@.len() == i,
                forall|j: int| 0 <= j < i ==> #[trigger] all@[j] == self.segments@[j],
            decreases n - i,
        {
            all.push(self.segments[i]);
            i += 1;
        }
        assert(all@ =~= self.segments@);
        all
    }

    /// Asks the head to turn. The request is taken unless it lies along the
    /// axis of the head's motion; no other segment is touched.
    pub fn turn(&mut self, requested: Direction)
        requires
            old(self).wf(),
        ensures
            final(self)@ == old(self)@.turn(requested),
            final(self).wf(),
    {
        let current = self.directions[0];
        let next = current.turn(requested);
        self.directions.pop_front();
        self.directions.push_front(next);
        assert(self.directions@ =~= old(self).directions@.update(0, next));
    }

    /// Moves every segment one step in its own direction, then hands the
    /// directions back along the body.
    pub fn advance(&mut self, grid: &Grid)
        requires
            old(self).wf(),
            old(self)@.can_advance(grid.spec_step()),
        ensures
            final(self)@ == old(self)@.advance(grid.spec_step()),
            final(self).wf(),
    {
        let step = grid.step();
        let ghost before = self@;
        let n = self.segments.len();
        let mut i: usize = 0;
        while i < n
            invariant
                i <= n,
                n == self.segments@.len(),
                n == before.cells.len(),
                step == grid.spec_step(),
                before.wf(),
                before.can_advance(step as int),
                self.directions@ == before.directions,
                forall|j: int|
                    0 <= j < i ==> (#[trigger] self.segments@[j])@ == before.cells[j].moved(
                        before.directions[j],
                        step as int,
                    ),
                forall|j: int| i <= j < n ==> (#[trigger] self.segments@[j])@ == before.cells[j],
            decreases n - i,
        {
            let d = self.directions[i];
            let p = self.segments[i];
            assert(before.cells[i as int].moved(before.directions[i as int], step as int)
                .representable());
            self.segments.set(i, p.moved(d, step));
            i += 1;
        }
        let front = self.directions[0];
        self.directions.pop_back();
        self.directions.push_front(front);
        assert(self@.cells =~= before.advance(step as int).cells);
        assert(self@.directions =~= before.advance(step as int).directions);
    }

    /// Adds one segment behind the tail, heading as the tail does.
    pub fn grow(&mut self, grid: &Grid)
        requires
            old(self).wf(),
            old(self)@.can_grow(grid.spec_step()),
        ensures
            final(self)@ == old(self)@.grow(grid.spec_step()),
            final(self).wf(),
    {
        let last = self.segments.len() - 1;
        let tail = self.segments[last];
        let d = self.directions[last];
        let added = tail.moved_back(d, grid.step());
        self.segments.push(added);
        self.directions.push_back(d);
        assert(self@.cells =~= old(self)@.grow(grid.spec_step()).cells);
    }

    /// Wraps every segment round the field.
    pub fn wrap(&mut self, grid: &Grid)
        ensures
            final(self)@ == old(self)@.wrap(*grid),
            old(self).wf() ==> final(self).wf(),
    {
        let ghost before = self@;
        let n = self.segments.len();
        let mut i: usize = 0;
        while i < n
            invariant
                i <= n,
                n == self.segments@.len(),
                n == before.cells.len(),
                self.directions@ == before.directions,
                forall|j: int|
                    0 <= j < i ==> (#[trigger] self.segments@[j])@ == grid.wrap_cell(
                        before.cells[j],
                    ),
                forall|j: int| i <= j < n ==> (#[trigger] self.segments@[j])@ == before.cells[j],
            decreases n - i,
        {
            let p = self.segments[i];
            self.segments.set(i, grid.wrap(p));
            i += 1;
        }
        assert(self@.cells =~= before.wrap(*grid).cells);
    }

    /// The motions of one tick in their fixed order: wrap, then turn if
    /// there is a request, then advance. The wrap keeps the advance within
    /// the range of a [`Position`], and leaves room to grow after it.
    pub fn tick(&mut self, grid: &Grid, intent: Option<Direction>)
        requires
            old(self).wf(),
            grid.wf(),
        ensures
            final(self)@ == old(self)@.tick(*grid, intent),
            final(self).wf(),
            final(self)@.can_grow(grid.spec_step()),
    {
        self.wrap(grid);
        proof {
            wrap_brings_body_inside(old(self)@, *grid);
        }
        match intent {
            Some(requested) => {
                self.turn(requested);
            },
            None => {},
        }
        proof {
            assert(self@.inside(*grid)) by {
                assert(self@.cells == old(self)@.wrap(*grid).cells);
            }
            body_inside_can_move(self@, *grid);
        }
        self.advance(grid);
    }

    /// Whether the head lies on the cell of another segment.
    pub fn self_collision(&self) -> (hit: bool)
        requires
            self.wf(),
        ensures
            hit == self@.collides(),
    {
        let head = self.segments[0];
        let n = self.segments.len();
        let mut i: usize = 1;
        while i < n
            invariant
                1 <= i <= n,
                n == self.segments@.len(),
                head == self.segments@[0],
                forall|j: int| 1 <= j < i ==> #[trigger] self@.cells[j] != self@.head(),
            decreases n - i,
        {
            let p = self.segments[i];
            if p.x == head.x && p.y == head.y {
                assert(self@.cells[i as int] == self@.cells[0]);
                return true;
            }
            i += 1;
        }
        false
    }
}

/// An advance changes neither the number of segments nor the number of
/// directions: a body that has one direction for each segment before it has
/// one for each after it.
pub proof fn advance_keeps_lengths(body: SnakeModel, step: int)
    requires
        body.wf(),
    ensures
        body.advance(step).wf(),
        body.advance(step).cells.len() == body.cells.len(),
        body.advance(step).directions.len() == body.directions.len(),
{
}

/// After an advance the head still has its direction, and every other
/// segment has the direction that the segment ahead of it has just used.
pub proof fn advance_hands_directions_back(body: SnakeModel, step: int)
    requires
        body.wf(),
    ensures
        body.advance(step).directions[0] == body.directions[0],
        forall|i: int|
            1 <= i < body.len() ==> #[trigger] body.advance(step).directions[i]
                == body.directions[i - 1],
{
}

/// A tick and a run of ticks change neither the number of segments nor the
/// number of directions.
pub proof fn run_keeps_lengths(body: SnakeModel, grid: Grid, intents: Seq<Option<Direction>>)
    requires
        body.wf(),
    ensures
        body.run(grid, intents).wf(),
        body.run(grid, intents).len() == body.len(),
    decreases intents.len(),
{
    if intents.len() > 0 {
        run_keeps_lengths(body, grid, intents.drop_last());
    }
}

/// Directions travel down the body by one segment for each tick: after a
/// run of ticks, segment `i` is about to move in the direction that the head
/// held at the end of the tick `i - 1` ticks before the last, for every
/// segment that the head's directions have reached in that run. This holds
/// whatever the length of the body, and wrapping does not disturb it.
pub proof fn directions_lag_one_tick_per_segment(
    body: SnakeModel,
    grid: Grid,
    intents: Seq<Option<Direction>>,
    i: int,
)
    requires
        body.wf(),
        1 <= i < body.len(),
        i <= intents.len(),
    ensures
        body.run(grid, intents).directions[i] == body.run(
            grid,
            intents.take(intents.len() - i + 1),
        ).directions[0],
    decreases intents.len(),
{
    let t = intents.len() as int;
    let earlier = intents.drop_last();
    let prev = body.run(grid, earlier);
    run_keeps_lengths(body, grid, earlier);
    let wrapped = prev.wrap(grid);
    let turned = match intents.last() {
        Some(requested) => wrapped.turn(requested),
        None => wrapped,
    };
    let now = body.run(grid, intents);
    assert(now == turned.advance(grid.spec_step()));
    assert(now.directions[i] == turned.directions[i - 1]);
    if i == 1 {
        assert(intents.take(t) =~= intents);
        assert(now.directions[0] == turned.directions[0]);
    } else {
        assert(turned.directions[i - 1] == prev.directions[i - 1]);
        directions_lag_one_tick_per_segment(body, grid, earlier, i - 1);
        assert(earlier.take(t - i + 1) =~= intents.take(t - i + 1));
    }
}

/// In a linked body an advance puts every segment but the head on the cell
/// that the segment ahead of it has just left, and the body is linked again.
pub proof fn advance_follows_the_leader(body: SnakeModel, step: int)
    requires
        body.wf(),
        body.linked(step),
    ensures
        forall|i: int|
            1 <= i < body.len() ==> #[trigger] body.advance(step).cells[i] == body.cells[i - 1],
        body.advance(step).linked(step),
{
    let after = body.advance(step);
    assert forall|i: int| 1 <= i < body.len() implies #[trigger] after.cells[i] == body.cells[i
        - 1] by {
        assert(body.cells[i].moved(body.directions[i], step) == body.cells[i - 1]);
    }
    assert forall|i: int| 1 <= i < after.cells.len() implies (#[trigger] after.cells[i]).moved(
        after.directions[i],
        step,
    ) == after.cells[i - 1] by {
        assert(after.cells[i] == body.cells[i - 1]);
        assert(after.directions[i] == body.directions[i - 1]);
    }
}

/// Follow the leader holds from tick to tick, walls or none. In a body that
/// trails, a tick puts every segment but the head on the very cell that the
/// segment ahead of it held before the tick, and the body trails again. A
/// linked body between the walls trails.
pub proof fn tick_follows_the_leader(body: SnakeModel, grid: Grid, intent: Option<Direction>)
    requires
        body.wf(),
        grid.wf(),
    ensures
        body.trailing(grid) ==> {
            &&& forall|i: int|
                1 <= i < body.len() ==> #[trigger] body.tick(grid, intent).cells[i]
                    == body.cells[i - 1]
            &&& body.tick(grid, intent).trailing(grid)
        },
        body.linked(grid.spec_step()) && body.inside(grid) ==> body.trailing(grid),
{
    let step = grid.spec_step();
    let wrapped = body.wrap(grid);
    let turned = match intent {
        Some(requested) => wrapped.turn(requested),
        None => wrapped,
    };
    let after = body.tick(grid, intent);
    assert(after == turned.advance(step));
    if body.trailing(grid) {
        assert forall|i: int| 1 <= i < body.len() implies #[trigger] after.cells[i] == body.cells[i
            - 1] by {
            assert(turned.directions[i] == body.directions[i]);
            assert(grid.wrap_cell(body.cells[i]).moved(body.directions[i], step) == body.cells[i
                - 1]);
        }
        assert forall|i: int| 1 <= i < after.cells.len() implies grid.wrap_cell(
            #[trigger] after.cells[i],
        ).moved(after.directions[i], step) == after.cells[i - 1] by {
            assert(after.cells[i] == body.cells[i - 1]);
            assert(after.directions[i] == turned.directions[i - 1]);
            assert(after.cells[i - 1] == grid.wrap_cell(body.cells[i - 1]).moved(
                turned.directions[i - 1],
                step,
            ));
        }
    }
    if body.linked(step) && body.inside(grid) {
        assert forall|i: int| 1 <= i < body.cells.len() implies grid.wrap_cell(
            #[trigger] body.cells[i],
        ).moved(body.directions[i], step) == body.cells[i - 1] by {
            assert(grid.between_walls(body.cells[i]));
            assert(body.cells[i].moved(body.directions[i], step) == body.cells[i - 1]);
        }
    }
}

/// Follow the leader holds round the field, also where the body is wrapped
/// between two ticks. Take a body on the multiples of the step that lies
/// within the walls and is linked on the closed field. After a tick every
/// segment but the head is at the place where the segment ahead of it was,
/// and the body is again on the multiples of the step, within the walls,
/// and linked on the closed field. A wrap alone keeps it within the walls
/// and linked on the closed field too.
pub proof fn tick_follows_the_leader_round_the_field(
    body: SnakeModel,
    grid: Grid,
    intent: Option<Direction>,
)
    requires
        body.wf(),
        grid.wf(),
        body.aligned(grid.spec_step()),
        body.within_walls(grid),
        body.linked_round(grid),
    ensures
        forall|i: int|
            1 <= i < body.len() ==> grid.same_place(
                #[trigger] body.tick(grid, intent).cells[i],
                body.cells[i - 1],
            ),
        body.tick(grid, intent).aligned(grid.spec_step()),
        body.tick(grid, intent).within_walls(grid),
        body.tick(grid, intent).linked_round(grid),
        body.wrap(grid).within_walls(grid),
        body.wrap(grid).linked_round(grid),
{
    let step = grid.spec_step();
    let h = grid.spec_half_extent();
    let wrapped = body.wrap(grid);
    assert forall|i: int| 0 <= i < wrapped.cells.len() implies grid.within_walls(
        #[trigger] wrapped.cells[i],
    ) by {
        crate::grid::wrap_lands_between_walls(grid, body.cells[i].x);
        crate::grid::wrap_lands_between_walls(grid, body.cells[i].y);
    }
    assert forall|i: int| 1 <= i < wrapped.cells.len() implies grid.same_place(
        (#[trigger] wrapped.cells[i]).moved(wrapped.directions[i], step),
        wrapped.cells[i - 1],
    ) by {
        let d = body.directions[i];
        let target = body.cells[i].moved(d, step);
        assert(grid.within_walls(body.cells[i]));
        assert(grid.within_walls(body.cells[i - 1]));
        assert(grid.same_place(target, body.cells[i - 1]));
        crate::grid::wrap_keeps_the_place(grid, body.cells[i].x);
        crate::grid::wrap_keeps_the_place(grid, body.cells[i].y);
        crate::grid::wrap_keeps_the_place(grid, body.cells[i - 1].x);
        crate::grid::wrap_keeps_the_place(grid, body.cells[i - 1].y);
        let moved = wrapped.cells[i].moved(d, step);
        let lead = wrapped.cells[i - 1];
        crate::grid::same_coord_is_an_equivalence(
            grid,
            wrapped.cells[i].x,
            body.cells[i].x,
            0,
            d.dx() * step,
        );
        crate::grid::same_coord_is_an_equivalence(
            grid,
            wrapped.cells[i].y,
            body.cells[i].y,
            0,
            d.dy() * step,
        );
        crate::grid::same_coord_is_an_equivalence(grid, moved.x, target.x, body.cells[i - 1].x, 0);
        crate::grid::same_coord_is_an_equivalence(grid, moved.y, target.y, body.cells[i - 1].y, 0);
        crate::grid::same_coord_is_an_equivalence(grid, lead.x, body.cells[i - 1].x, 0, 0);
        crate::grid::same_coord_is_an_equivalence(grid, lead.y, body.cells[i - 1].y, 0, 0);
        crate::grid::same_coord_is_an_equivalence(grid, moved.x, body.cells[i - 1].x, lead.x, 0);
        crate::grid::same_coord_is_an_equivalence(grid, moved.y, body.cells[i - 1].y, lead.y, 0);
    }
    let turned = match intent {
        Some(requested) => wrapped.turn(requested),
        None => wrapped,
    };
    let after = body.tick(grid, intent);
    assert(after == turned.advance(step));
    assert(turned.cells == wrapped.cells);
    motions_keep_body_aligned(body, grid, intent);
    wrap_brings_body_inside(body, grid);
    // A wrapped coordinate on the multiples of the step is at most the
    // half-extent from the centre, so one step keeps it within the walls.
    assert forall|i: int| 0 <= i < after.cells.len() implies grid.within_walls(
        #[trigger] after.cells[i],
    ) by {
        let c = wrapped.cells[i];
        assert(grid.between_walls(c));
        assert(c.aligned(step));
        crate::grid::aligned_between_walls_is_on_the_field(grid, c.x);
        crate::grid::aligned_between_walls_is_on_the_field(grid, c.y);
        assert(after.cells[i] == c.moved(turned.directions[i], step));
    }
    // Each segment lands where the one ahead of it was.
    assert forall|i: int| 1 <= i < body.len() implies grid.same_place(
        #[trigger] after.cells[i],
        body.cells[i - 1],
    ) by {
        let d = body.directions[i];
        assert(turned.directions[i] == d);
        assert(grid.within_walls(body.cells[i]));
        let target = body.cells[i].moved(d, step);
        assert(grid.same_place(target, body.cells[i - 1]));
        crate::grid::wrap_keeps_the_place(grid, body.cells[i].x);
        crate::grid::wrap_keeps_the_place(grid, body.cells[i].y);
        let landed = after.cells[i];
        assert(landed == wrapped.cells[i].moved(d, step));
        crate::grid::same_coord_is_an_equivalence(
            grid,
            wrapped.cells[i].x,
            body.cells[i].x,
            0,
            d.dx() * step,
        );
        crate::grid::same_coord_is_an_equivalence(
            grid,
            wrapped.cells[i].y,
            body.cells[i].y,
            0,
            d.dy() * step,
        );
        crate::grid::same_coord_is_an_equivalence(grid, landed.x, target.x, body.cells[i - 1].x, 0);
        crate::grid::same_coord_is_an_equivalence(grid, landed.y, target.y, body.cells[i - 1].y, 0);
    }
    // And it is about to step onto the place where that one is now.
    assert forall|i: int| 1 <= i < after.cells.len() implies grid.same_place(
        (#[trigger] after.cells[i]).moved(after.directions[i], step),
        after.cells[i - 1],
    ) by {
        let lead = turned.directions[i - 1];
        assert(after.directions[i] == lead);
        assert(grid.within_walls(body.cells[i - 1]));
        crate::grid::wrap_keeps_the_place(grid, body.cells[i - 1].x);
        crate::grid::wrap_keeps_the_place(grid, body.cells[i - 1].y);
        let ahead = after.cells[i - 1];
        assert(ahead == wrapped.cells[i - 1].moved(lead, step));
        let here = after.cells[i];
        assert(grid.same_place(here, body.cells[i - 1]));
        crate::grid::same_coord_is_an_equivalence(
            grid,
            wrapped.cells[i - 1].x,
            body.cells[i - 1].x,
            0,
            0,
        );
        crate::grid::same_coord_is_an_equivalence(
            grid,
            wrapped.cells[i - 1].y,
            body.cells[i - 1].y,
            0,
            0,
        );
        crate::grid::same_coord_is_an_equivalence(
            grid,
            here.x,
            body.cells[i - 1].x,
            wrapped.cells[i - 1].x,
            lead.dx() * step,
        );
        crate::grid::same_coord_is_an_equivalence(
            grid,
            here.y,
            body.cells[i - 1].y,
            wrapped.cells[i - 1].y,
            lead.dy() * step,
        );
        crate::grid::same_coord_is_an_equivalence(
            grid,
            here.x,
            wrapped.cells[i - 1].x,
            0,
            lead.dx() * step,
        );
        crate::grid::same_coord_is_an_equivalence(
            grid,
            here.y,
            wrapped.cells[i - 1].y,
            0,
            lead.dy() * step,
        );
    }
}

/// A body that is linked is linked on the closed field.
pub proof fn linked_is_linked_round(body: SnakeModel, grid: Grid)
    requires
        grid.wf(),
        body.linked(grid.spec_step()),
    ensures
        body.linked_round(grid),
{
    assert forall|i: int| 1 <= i < body.cells.len() implies grid.same_place(
        (#[trigger] body.cells[i]).moved(body.directions[i], grid.spec_step()),
        body.cells[i - 1],
    ) by {
        crate::grid::same_coord_is_an_equivalence(grid, body.cells[i - 1].x, 0, 0, 0);
        crate::grid::same_coord_is_an_equivalence(grid, body.cells[i - 1].y, 0, 0, 0);
    }
}

/// A turn moves no segment, changes no direction but the head's, and leaves
/// a linked body linked.
pub proof fn turn_touches_head_only(body: SnakeModel, requested: Direction, step: int)
    requires
        body.wf(),
    ensures
        body.turn(requested).wf(),
        body.turn(requested).cells == body.cells,
        body.turn(requested).directions[0] == body.directions[0].turned(requested),
        forall|i: int|
            1 <= i < body.len() ==> #[trigger] body.turn(requested).directions[i]
                == body.directions[i],
        body.linked(step) ==> body.turn(requested).linked(step),
{
    let after = body.turn(requested);
    if body.linked(step) {
        assert forall|i: int| 1 <= i < after.cells.len() implies (#[trigger] after.cells[i]).moved(
            after.directions[i],
            step,
        ) == after.cells[i - 1] by {
            assert(body.cells[i].moved(body.directions[i], step) == body.cells[i - 1]);
        }
    }
}

/// Growth adds exactly one segment and one direction, moves none of the
/// segments that were there, changes none of their directions, and leaves a
/// linked body linked.
pub proof fn grow_adds_one_segment(body: SnakeModel, step: int)
    requires
        body.wf(),
    ensures
        body.grow(step).wf(),
        body.grow(step).cells.len() == body.cells.len() + 1,
        body.grow(step).directions.len() == body.directions.len() + 1,
        forall|i: int| 0 <= i < body.len() ==> #[trigger] body.grow(step).cells[i] == body.cells[i],
        forall|i: int|
            0 <= i < body.len() ==> #[trigger] body.grow(step).directions[i] == body.directions[i],
        body.grow(step).cells.last() == body.tail().moved_back(body.directions.last(), step),
        body.grow(step).directions.last() == body.directions.last(),
        body.linked(step) ==> body.grow(step).linked(step),
{
    let after = body.grow(step);
    if body.linked(step) {
        assert forall|i: int| 1 <= i < after.cells.len() implies (#[trigger] after.cells[i]).moved(
            after.directions[i],
            step,
        ) == after.cells[i - 1] by {
            if i < body.len() {
                assert(body.cells[i].moved(body.directions[i], step) == body.cells[i - 1]);
            }
        }
    }
}

/// Wrapping changes neither the number of segments nor any direction.
pub proof fn wrap_keeps_lengths(body: SnakeModel, grid: Grid)
    requires
        body.wf(),
    ensures
        body.wrap(grid).wf(),
        body.wrap(grid).cells.len() == body.cells.len(),
        body.wrap(grid).directions == body.directions,
{
}

/// A wrapped body lies between the walls.
pub proof fn wrap_brings_body_inside(body: SnakeModel, grid: Grid)
    requires
        body.wf(),
        grid.wf(),
    ensures
        body.wrap(grid).inside(grid),
{
    let wrapped = body.wrap(grid);
    assert forall|i: int| 0 <= i < wrapped.cells.len() implies grid.between_walls(
        #[trigger] wrapped.cells[i],
    ) by {
        crate::grid::wrap_lands_between_walls(grid, body.cells[i].x);
        crate::grid::wrap_lands_between_walls(grid, body.cells[i].y);
    }
}

/// A body that lies between the walls of a valid field can advance within
/// the range of a [`Position`], whatever the directions of its segments, and
/// after that advance it can grow.
pub proof fn body_inside_can_move(body: SnakeModel, grid: Grid)
    requires
        body.wf(),
        grid.wf(),
        body.inside(grid),
    ensures
        body.can_advance(grid.spec_step()),
        body.advance(grid.spec_step()).can_grow(grid.spec_step()),
{
    let step = grid.spec_step();
    assert forall|i: int| 0 <= i < body.cells.len() implies (#[trigger] body.cells[i]).moved(
        body.directions[i],
        step,
    ).representable() by {
        assert(grid.between_walls(body.cells[i]));
    }
    let after = body.advance(step);
    let last = body.len() - 1;
    assert(grid.between_walls(body.cells[last]));
    let reached = body.cells[last].moved(body.directions[last], step);
    assert(after.cells.last() == reached);
    assert(-grid.spec_limit() - step < reached.x < grid.spec_limit() + step);
    assert(-grid.spec_limit() - step < reached.y < grid.spec_limit() + step);
    let behind = reached.moved_back(after.directions.last(), step);
    assert(-grid.spec_limit() - 2 * step < behind.x < grid.spec_limit() + 2 * step);
    assert(-grid.spec_limit() - 2 * step < behind.y < grid.spec_limit() + 2 * step);
}

/// The body with which a round begins is well formed, has the length that
/// the grid gives, lies in the bottom row heading right, and is linked.
pub proof fn initial_body_is_linked(grid: Grid)
    requires
        grid.wf(),
    ensures
        SnakeModel::initial(grid).wf(),
        SnakeModel::initial(grid).len() == grid.spec_spawn_len(),
        SnakeModel::initial(grid).linked(grid.spec_step()),
        SnakeModel::initial(grid).head() == (Cell {
            x: grid.spec_half_extent() - grid.spec_step(),
            y: -grid.spec_half_extent(),
        }),
{
    let body = SnakeModel::initial(grid);
    let step = grid.spec_step();
    assert forall|i: int| 1 <= i < body.cells.len() implies (#[trigger] body.cells[i]).moved(
        body.directions[i],
        step,
    ) == body.cells[i - 1] by {
        assert((i + 1) * step == i * step + step) by (nonlinear_arith);
    }
}

/// A body whose segments all lie on different cells does not collide with
/// itself.
pub proof fn distinct_body_does_not_collide(body: SnakeModel)
    requires
        body.all_distinct(),
    ensures
        !body.collides(),
{
}

/// When the step that the head is about to take ends where the step of
/// another segment ends, the body collides with itself after the advance.
pub proof fn advance_onto_segment_collides(body: SnakeModel, step: int, i: int)
    requires
        body.wf(),
        1 <= i < body.len(),
        body.cells[0].moved(body.directions[0], step) == body.cells[i].moved(
            body.directions[i],
            step,
        ),
    ensures
        body.advance(step).collides(),
{
    let after = body.advance(step);
    assert(after.cells[i] == after.head());
}

/// A body whose head lies on the cell of segment `i` collides with itself.
pub proof fn head_on_segment_collides(body: SnakeModel, i: int)
    requires
        1 <= i < body.len(),
        body.cells[i] == body.head(),
    ensures
        body.collides(),
{
}

/// No motion takes a segment off the multiples of the step: a body whose
/// coordinates are all multiples of the step of a valid field has only such
/// coordinates after a wrap, a turn, an advance, a growth, and a whole tick.
pub proof fn motions_keep_body_aligned(body: SnakeModel, grid: Grid, intent: Option<Direction>)
    requires
        body.wf(),
        grid.wf(),
        body.aligned(grid.spec_step()),
    ensures
        body.wrap(grid).aligned(grid.spec_step()),
        forall|requested: Direction|
            (#[trigger] body.turn(requested)).aligned(grid.spec_step()),
        body.advance(grid.spec_step()).aligned(grid.spec_step()),
        body.grow(grid.spec_step()).aligned(grid.spec_step()),
        body.tick(grid, intent).aligned(grid.spec_step()),
{
    let step = grid.spec_step();
    let wrapped = body.wrap(grid);
    assert forall|i: int| 0 <= i < wrapped.cells.len() implies (#[trigger] wrapped.cells[i]).aligned(
        step,
    ) by {
        assert(body.cells[i].aligned(step));
        crate::grid::wrap_keeps_cell_aligned(grid, body.cells[i]);
    }
    advance_keeps_body_aligned(body, step);
    let grown = body.grow(step);
    assert forall|i: int| 0 <= i < grown.cells.len() implies (#[trigger] grown.cells[i]).aligned(
        step,
    ) by {
        if i < body.len() {
            assert(body.cells[i].aligned(step));
        } else {
            assert(body.cells[body.len() - 1].aligned(step));
            crate::position::step_keeps_cell_aligned(body.cells.last(), body.directions.last(), step);
        }
    }
    let turned = match intent {
        Some(requested) => wrapped.turn(requested),
        None => wrapped,
    };
    assert(turned.cells == wrapped.cells);
    assert(turned.aligned(step));
    advance_keeps_body_aligned(turned, step);
}

/// An advance by a positive step keeps the coordinates of a body on the
/// multiples of that step.
pub proof fn advance_keeps_body_aligned(body: SnakeModel, step: int)
    requires
        body.wf(),
        step > 0,
        body.aligned(step),
    ensures
        body.advance(step).aligned(step),
{
    let after = body.advance(step);
    assert forall|i: int| 0 <= i < after.cells.len() implies (#[trigger] after.cells[i]).aligned(
        step,
    ) by {
        assert(body.cells[i].aligned(step));
        crate::position::step_keeps_cell_aligned(body.cells[i], body.directions[i], step);
    }
}

/// The body with which a round begins has only multiples of the step for
/// coordinates.
pub proof fn initial_body_is_aligned(grid: Grid)
    requires
        grid.wf(),
    ensures
        SnakeModel::initial(grid).aligned(grid.spec_step()),
{
    let body = SnakeModel::initial(grid);
    let h = grid.spec_half_extent();
    let s = grid.spec_step();
    vstd::arithmetic::div_mod::lemma_fundamental_div_mod(h, s);
    let q = h / s;
    assert forall|i: int| 0 <= i < body.cells.len() implies (#[trigger] body.cells[i]).aligned(
        s,
    ) by {
        assert(h - (i + 1) * s == (q - (i + 1)) * s) by (nonlinear_arith)
            requires
                h == s * q,
        ;
        assert(-h == (-q) * s) by (nonlinear_arith)
            requires
                h == s * q,
        ;
        vstd::arithmetic::div_mod::lemma_mod_multiples_basic(q - (i + 1), s);
        vstd::arithmetic::div_mod::lemma_mod_multiples_basic(-q, s);
    }
}

} // verus!
