//! Points of the plane: exact ones for contracts, machine ones for the game.

use vstd::prelude::*;
use crate::direction::Direction;

verus! {

/// One of the two axes of the field.
#[derive(Clone, Copy, Debug, PartialEq, Eq, Structural)]
pub enum Axis {
    X,
    Y,
}

/// A point of the plane in exact integers: what a [`Position`] stands for in
/// contracts.
pub struct Cell {
    pub x: int,
    pub y: int,
}

impl Cell {
    /// The cell reached from here by one step of length `step` in direction
    /// `d`.
    pub open spec fn moved(self, d: Direction, step: int) -> Cell {
        Cell { x: self.x + d.dx() * step, y: self.y + d.dy() * step }
    }

    /// The cell from which one step of length `step` in direction `d` leads
    /// here.
    pub open spec fn moved_back(self, d: Direction, step: int) -> Cell {
        Cell { x: self.x - d.dx() * step, y: self.y - d.dy() * step }
    }

    /// The coordinate along `axis`.
    pub open spec fn along(self, axis: Axis) -> int {
        match axis {
            Axis::X => self.x,
            Axis::Y => self.y,
        }
    }

    /// Both coordinates are multiples of `step`.
    pub open spec fn aligned(self, step: int) -> bool {
        &&& self.x % step == 0
        &&& self.y % step == 0
    }

    /// Whether both coordinates can be held by a [`Position`].
    pub open spec fn representable(self) -> bool {
        &&& i32::MIN <= self.x <= i32::MAX
        &&& i32::MIN <= self.y <= i32::MAX
    }
}

/// Where a segment or the apple is.
#[derive(Clone, Copy, Debug, PartialEq, Eq, Structural)]
pub struct Position {
    pub x: i32,
    pub y: i32,
}

impl View for Position {
    type V = Cell;

    open spec fn view(&self) -> Cell {
        Cell { x: self.x as int, y: self.y as int }
    }
}

impl Position {
    /// The coordinate along `axis`.
    pub fn along(self, axis: Axis) -> (c: i32)
        ensures
            c == self@.along(axis),
    {
        match axis {
            Axis::X => self.x,
            Axis::Y => self.y,
        }
    }

    /// One step of length `step` in direction `d`.
    pub fn moved(self, d: Direction, step: i32) -> (p: Position)
        requires
            self@.moved(d, step as int).representable(),
        ensures
            p@ == self@.moved(d, step as int),
    {
        match d {
            Direction::Still => self,
            Direction::Left => Position { x: self.x - step, y: self.y },
            Direction::Right => Position { x: self.x + step, y: self.y },
            Direction::Up => Position { x: self.x, y: self.y + step },
            Direction::Down => Position { x: self.x, y: self.y - step },
        }
    }

    /// One step of length `step` against direction `d`.
    pub fn moved_back(self, d: Direction, step: i32) -> (p: Position)
        requires
            self@.moved_back(d, step as int).representable(),
        ensures
            p@ == self@.moved_back(d, step as int),
    {
        match d {
            Direction::Still => self,
            Direction::Left => Position { x: self.x + step, y: self.y },
            Direction::Right => Position { x: self.x - step, y: self.y },
            Direction::Up => Position { x: self.x, y: self.y - step },
            Direction::Down => Position { x: self.x, y: self.y + step },
        }
    }
}

/// The cells that a list of positions stands for.
pub open spec fn cells_of(positions: Seq<Position>) -> Seq<Cell> {
    positions.map_values(|p: Position| p@)
}

/// Two positions are the same exactly when they stand for the same cell.
pub proof fn positions_agree_with_cells(p: Position, q: Position)
    ensures
        (p == q) <==> (p@ == q@),
{
}

/// A step forward and the same step back lead to the starting cell.
pub proof fn step_back_undoes_step(c: Cell, d: Direction, step: int)
    ensures
        c.moved(d, step).moved_back(d, step) == c,
        c.moved_back(d, step).moved(d, step) == c,
{
}

/// A step forward or back from a cell whose coordinates are multiples of the
/// step leads to another such cell.
pub proof fn step_keeps_cell_aligned(c: Cell, d: Direction, step: int)
    requires
        step > 0,
        c.aligned(step),
    ensures
        c.moved(d, step).aligned(step),
        c.moved_back(d, step).aligned(step),
{
    vstd::arithmetic::div_mod::lemma_mod_add_multiples_vanish(c.x, step);
    vstd::arithmetic::div_mod::lemma_mod_add_multiples_vanish(c.y, step);
    vstd::arithmetic::div_mod::lemma_mod_sub_multiples_vanish(c.x, step);
    vstd::arithmetic::div_mod::lemma_mod_sub_multiples_vanish(c.y, step);
    assert(d.dx() * step == step || d.dx() * step == -step || d.dx() * step == 0);
    assert(d.dy() * step == step || d.dy() * step == -step || d.dy() * step == 0);
}

} // verus!
