//! The direction a segment moves in, and the rule for turning the head.

use vstd::prelude::*;

verus! {

/// One unit step along an axis, or no motion at all.
///
/// As a vector, `(dx, dy)` has its components in `{-1, 0, 1}` and at most one
/// of them is not zero. A segment that moves is displaced by this vector
/// times the step of the grid.
#[derive(Clone, Copy, Debug, PartialEq, Eq, Structural)]
pub enum Direction {
    Still,
    Left,
    Right,
    Up,
    Down,
}

impl Direction {
    /// The horizontal component.
    pub open spec fn dx(self) -> int {
        match self {
            Direction::Left => -1,
            Direction::Right => 1,
            _ => 0,
        }
    }

    /// The vertical component.
    pub open spec fn dy(self) -> int {
        match self {
            Direction::Up => 1,
            Direction::Down => -1,
            _ => 0,
        }
    }

    /// Whether a head that moves in `self` takes up the request: the request
    /// must name an axis, and the head must not be moving along that axis.
    /// So a reversal is refused, and so is the direction already held.
    pub open spec fn admits(self, requested: Direction) -> bool {
        ||| requested.dx() != 0 && self.dx() == 0
        ||| requested.dy() != 0 && self.dy() == 0
    }

    /// The direction of the head after a request to turn.
    pub open spec fn turned(self, requested: Direction) -> Direction {
        if self.admits(requested) {
            requested
        } else {
            self
        }
    }

    /// The horizontal component.
    pub fn x(self) -> (c: i32)
        ensures
            c == self.dx(),
    {
        match self {
            Direction::Left => -1,
            Direction::Right => 1,
            _ => 0,
        }
    }

    /// The vertical component.
    pub fn y(self) -> (c: i32)
        ensures
            c == self.dy(),
    {
        match self {
            Direction::Up => 1,
            Direction::Down => -1,
            _ => 0,
        }
    }

    /// Applies the turning rule to one direction.
    pub fn turn(self, requested: Direction) -> (next: Direction)
        ensures
            next == self.turned(requested),
    {
        let along_x = requested.x() != 0 && self.x() == 0;
        let along_y = requested.y() != 0 && self.y() == 0;
        if along_x || along_y {
            requested
        } else {
            self
        }
    }
}

impl Default for Direction {
    /// No motion: the direction of a segment that has not been set going.
    fn default() -> (d: Direction)
        ensures
            d == Direction::Still,
    {
        Direction::Still
    }
}

/// A request along the axis of the current motion changes nothing, whether
/// it reverses the motion or repeats it.
pub proof fn turn_along_motion_is_ignored(current: Direction, requested: Direction)
    requires
        (current.dx() != 0 && requested.dx() != 0) || (current.dy() != 0 && requested.dy() != 0),
    ensures
        current.turned(requested) == current,
{
}

/// A request across the axis of the current motion is always taken.
pub proof fn turn_across_motion_is_taken(current: Direction, requested: Direction)
    requires
        (current.dx() != 0 && requested.dy() != 0) || (current.dy() != 0 && requested.dx() != 0),
    ensures
        current.turned(requested) == requested,
{
}

/// A head that stands still takes any of the four directions.
pub proof fn turn_from_rest_is_taken(requested: Direction)
    requires
        requested != Direction::Still,
    ensures
        Direction::Still.turned(requested) == requested,
{
}

/// Turning never yields a direction other than the one held or the one
/// requested, and a request for no motion is never taken.
pub proof fn turn_yields_held_or_requested(current: Direction, requested: Direction)
    ensures
        current.turned(requested) == current || current.turned(requested) == requested,
        current.turned(Direction::Still) == current,
{
}

} // verus!
