//! The playing field: its size, its step, and the wrap-around rule.

use vstd::prelude::*;
use crate::position::{Cell, Position};

verus! {

/// The field: its half-extent and its step. The snake moves on the cells
/// from the negative half-extent to the positive one; the walls stand one
/// step beyond, and what reaches a wall comes back in from the other side.
#[derive(Clone, Copy, Debug, PartialEq, Eq, Structural)]
pub struct Grid {
    half_extent: i16,
    step: i16,
}

/// The dimensions that make a field: a positive step, and a half-extent that
/// is a positive multiple of it.
pub open spec fn valid_dimensions(half_extent: int, step: int) -> bool {
    &&& 0 < step <= half_extent
    &&& half_extent % step == 0
}

impl Grid {
    /// The distance from the centre to the last cell before a wall.
    pub closed spec fn spec_half_extent(self) -> int {
        self.half_extent as int
    }

    /// The side of one cell: the length of every move.
    pub closed spec fn spec_step(self) -> int {
        self.step as int
    }

    /// The coordinate of the walls: one step beyond the half-extent.
    pub open spec fn spec_limit(self) -> int {
        self.spec_half_extent() + self.spec_step()
    }

    /// The dimensions are valid. Every grid that [`Grid::new`] or
    /// [`Grid::standard`] hands out is so.
    pub open spec fn wf(self) -> bool {
        &&& valid_dimensions(self.spec_half_extent(), self.spec_step())
        &&& self.spec_half_extent() <= i16::MAX
    }

    /// A field of the given dimensions, if they are valid.
    pub fn new(half_extent: i16, step: i16) -> (made: Option<Grid>)
        ensures
            made is Some <==> valid_dimensions(half_extent as int, step as int),
            made matches Some(grid) ==> {
                &&& grid.wf()
                &&& grid.spec_half_extent() == half_extent
                &&& grid.spec_step() == step
            },
    {
        if 0 < step && step <= half_extent && half_extent % step == 0 {
            Some(Grid { half_extent, step })
        } else {
            None
        }
    }

    /// The field of the classic game: walls at 200 from the centre, cells of
    /// side 10.
    pub fn standard() -> (grid: Grid)
        ensures
            grid.wf(),
            grid.spec_half_extent() == 200,
            grid.spec_step() == 10,
    {
        Grid { half_extent: 200, step: 10 }
    }

    /// Tests whether the dimensions are valid, for callers that cannot
    /// know.
    pub fn is_well_formed(&self) -> (ok: bool)
        ensures
            ok == self.wf(),
    {
        0 < self.step && self.step <= self.half_extent && self.half_extent % self.step == 0
    }

    /// The half-extent.
    pub fn half_extent(&self) -> (h: i32)
        ensures
            h == self.spec_half_extent(),
    {
        self.half_extent as i32
    }

    /// The step.
    pub fn step(&self) -> (s: i32)
        ensures
            s == self.spec_step(),
    {
        self.step as i32
    }

    /// The coordinate of the walls.
    pub fn limit(&self) -> (l: i32)
        ensures
            l == self.spec_limit(),
    {
        self.half_extent as i32 + self.step as i32
    }

    /// The cell lies strictly between the walls, on both axes.
    pub open spec fn between_walls(self, c: Cell) -> bool {
        &&& -self.spec_limit() < c.x < self.spec_limit()
        &&& -self.spec_limit() < c.y < self.spec_limit()
    }

    /// The cell lies between the walls or on one, on both axes.
    pub open spec fn within_walls(self, c: Cell) -> bool {
        &&& -self.spec_limit() <= c.x <= self.spec_limit()
        &&& -self.spec_limit() <= c.y <= self.spec_limit()
    }

    /// The length of one whole turn round the field along an axis: from a
    /// wall to the place at the other side where it lets in again.
    pub open spec fn spec_period(self) -> int {
        2 * self.spec_half_extent() + self.spec_step()
    }

    /// The two coordinates name one place of the field closed on itself:
    /// they differ by whole turns.
    pub open spec fn same_coord(self, a: int, b: int) -> bool {
        (a - b) % self.spec_period() == 0
    }

    /// The two cells name one place of the field closed on itself.
    pub open spec fn same_place(self, a: Cell, b: Cell) -> bool {
        &&& self.same_coord(a.x, b.x)
        &&& self.same_coord(a.y, b.y)
    }

    /// One coordinate after wrapping: at or beyond the positive wall it
    /// re-enters at the negative half-extent, at or beyond the negative wall
    /// at the positive half-extent, and anywhere between it stays.
    pub open spec fn wrap_coord(self, c: int) -> int {
        if c >= self.spec_limit() {
            -self.spec_half_extent()
        } else if c <= -self.spec_limit() {
            self.spec_half_extent()
        } else {
            c
        }
    }

    /// A cell after wrapping, each axis on its own.
    pub open spec fn wrap_cell(self, c: Cell) -> Cell {
        Cell { x: self.wrap_coord(c.x), y: self.wrap_coord(c.y) }
    }

    /// Wraps one coordinate.
    pub fn wrap_axis(&self, c: i32) -> (w: i32)
        ensures
            w == self.wrap_coord(c as int),
    {
        let limit = self.limit();
        if c >= limit {
            -self.half_extent()
        } else if c <= -limit {
            self.half_extent()
        } else {
            c
        }
    }

    /// Wraps a position, each axis on its own.
    pub fn wrap(&self, p: Position) -> (w: Position)
        ensures
            w@ == self.wrap_cell(p@),
    {
        Position { x: self.wrap_axis(p.x), y: self.wrap_axis(p.y) }
    }

    /// How many cells the field has along one axis, for the placing of
    /// apples: those from the negative half-extent up to, but not including,
    /// the positive one.
    pub open spec fn spec_cells_per_axis(self) -> nat {
        (2 * (self.spec_half_extent() / self.spec_step())) as nat
    }

    /// The coordinates of those cells in rising order: the multiples of the
    /// step from the negative half-extent up to, but not including, the
    /// positive one.
    pub open spec fn lattice(self) -> Seq<int> {
        Seq::new(
            self.spec_cells_per_axis(),
            |k: int| -self.spec_half_extent() + k * self.spec_step(),
        )
    }

    /// The number of cells along one axis on which an apple can lie.
    pub fn cells_per_axis(&self) -> (n: usize)
        requires
            self.wf(),
        ensures
            n == self.spec_cells_per_axis(),
            2 <= n <= 65534,
    {
        let per_half = (self.half_extent as usize) / (self.step as usize);
        assert(per_half >= 1 && per_half <= 32767) by {
            let h = self.half_extent as int;
            let s = self.step as int;
            vstd::arithmetic::div_mod::lemma_fundamental_div_mod(h, s);
            assert(h / s >= 1) by (nonlinear_arith)
                requires
                    h == s * (h / s) + (h % s),
                    h % s == 0,
                    0 < s <= h,
            ;
            assert(h / s <= h) by (nonlinear_arith)
                requires
                    h == s * (h / s) + (h % s),
                    h % s == 0,
                    0 < s <= h,
            ;
        }
        2 * per_half
    }

    /// How many segments a new body has: a sixth of the half-extent, rounded
    /// to the nearest whole number, less one; and one at the least.
    pub open spec fn spec_spawn_len(self) -> nat {
        let sixth = (self.spec_half_extent() + 3) / 6;
        if sixth >= 2 {
            (sixth - 1) as nat
        } else {
            1
        }
    }

    /// The number of segments of a new body.
    pub fn spawn_len(&self) -> (n: usize)
        requires
            self.wf(),
        ensures
            n == self.spec_spawn_len(),
            1 <= n <= 5461,
    {
        let sixth = (self.half_extent as usize + 3) / 6;
        if sixth >= 2 {
            sixth - 1
        } else {
            1
        }
    }
}

/// A coordinate on the positive wall re-enters at the negative half-extent,
/// and one on the negative wall at the positive half-extent; the same holds
/// of both coordinates of a cell.
pub proof fn wrap_at_the_walls(grid: Grid, c: Cell)
    requires
        grid.wf(),
    ensures
        grid.wrap_coord(grid.spec_limit()) == -grid.spec_half_extent(),
        grid.wrap_coord(-grid.spec_limit()) == grid.spec_half_extent(),
        c.x == grid.spec_limit() ==> grid.wrap_cell(c).x == -grid.spec_half_extent(),
        c.x == -grid.spec_limit() ==> grid.wrap_cell(c).x == grid.spec_half_extent(),
        c.y == grid.spec_limit() ==> grid.wrap_cell(c).y == -grid.spec_half_extent(),
        c.y == -grid.spec_limit() ==> grid.wrap_cell(c).y == grid.spec_half_extent(),
{
}

/// Whatever the coordinate, after wrapping it lies strictly between the
/// walls; one that lay there already is left alone, so wrapping twice is
/// wrapping once.
pub proof fn wrap_lands_between_walls(grid: Grid, c: int)
    requires
        grid.wf(),
    ensures
        -grid.spec_limit() < grid.wrap_coord(c) < grid.spec_limit(),
        -grid.spec_limit() < c < grid.spec_limit() ==> grid.wrap_coord(c) == c,
        grid.wrap_coord(grid.wrap_coord(c)) == grid.wrap_coord(c),
{
}

/// The field closes on itself: a coordinate on a wall is moved by one whole
/// turn round the field, which is twice the half-extent and one step, and
/// any other coordinate between the walls is not moved at all.
pub proof fn wrap_moves_by_a_whole_turn(grid: Grid, c: int)
    requires
        grid.wf(),
        -grid.spec_limit() <= c <= grid.spec_limit(),
    ensures
        c == grid.spec_limit() ==> grid.wrap_coord(c) == c - (2 * grid.spec_half_extent()
            + grid.spec_step()),
        c == -grid.spec_limit() ==> grid.wrap_coord(c) == c + (2 * grid.spec_half_extent()
            + grid.spec_step()),
        -grid.spec_limit() < c < grid.spec_limit() ==> grid.wrap_coord(c) == c,
{
}

/// To name one place of the closed field is an equivalence of coordinates,
/// and it is kept when both are moved by the same amount.
pub proof fn same_coord_is_an_equivalence(grid: Grid, a: int, b: int, c: int, d: int)
    requires
        grid.wf(),
    ensures
        grid.same_coord(a, a),
        grid.same_coord(a, b) ==> grid.same_coord(b, a),
        grid.same_coord(a, b) && grid.same_coord(b, c) ==> grid.same_coord(a, c),
        grid.same_coord(a, b) <==> grid.same_coord(a + d, b + d),
{
    let p = grid.spec_period();
    assert(0int % p == 0) by {
        vstd::arithmetic::div_mod::lemma_small_mod(0, p as nat);
    }
    if grid.same_coord(a, b) {
        vstd::arithmetic::div_mod::lemma_sub_mod_noop(0, a - b, p);
        assert(0 - (a - b) == b - a);
        if grid.same_coord(b, c) {
            vstd::arithmetic::div_mod::lemma_add_mod_noop(a - b, b - c, p);
            assert((a - b) + (b - c) == a - c);
        }
    }
    assert((a + d) - (b + d) == a - b);
}

/// Wrapping a coordinate that lies between the walls or on one leaves it at
/// the same place of the closed field.
pub proof fn wrap_keeps_the_place(grid: Grid, c: int)
    requires
        grid.wf(),
        -grid.spec_limit() <= c <= grid.spec_limit(),
    ensures
        grid.same_coord(grid.wrap_coord(c), c),
{
    let p = grid.spec_period();
    vstd::arithmetic::div_mod::lemma_small_mod(0, p as nat);
    vstd::arithmetic::div_mod::lemma_mod_self_0(p);
    vstd::arithmetic::div_mod::lemma_mod_sub_multiples_vanish(0, p);
    if c == grid.spec_limit() {
        assert(grid.wrap_coord(c) - c == -p + 0);
    } else if c == -grid.spec_limit() {
        assert(grid.wrap_coord(c) - c == p);
    } else {
        assert(grid.wrap_coord(c) - c == 0);
    }
}

/// A multiple of the step that lies strictly between the walls is no
/// further from the centre than the half-extent.
pub proof fn aligned_between_walls_is_on_the_field(grid: Grid, c: int)
    requires
        grid.wf(),
        -grid.spec_limit() < c < grid.spec_limit(),
        c % grid.spec_step() == 0,
    ensures
        -grid.spec_half_extent() <= c <= grid.spec_half_extent(),
{
    let h = grid.spec_half_extent();
    let s = grid.spec_step();
    vstd::arithmetic::div_mod::lemma_fundamental_div_mod(h, s);
    vstd::arithmetic::div_mod::lemma_fundamental_div_mod(c, s);
    let q = h / s;
    let m = c / s;
    assert(-q <= m <= q) by (nonlinear_arith)
        requires
            h == s * q,
            c == s * m,
            -(h + s) < c < h + s,
            0 < s,
    ;
    assert(-h <= c <= h) by (nonlinear_arith)
        requires
            h == s * q,
            c == s * m,
            -q <= m <= q,
            0 < s,
    ;
}

/// Wrapping treats the two axes apart: what it does to one coordinate does
/// not depend on the other.
pub proof fn wrap_is_per_axis(grid: Grid, c: Cell, other: int)
    ensures
        grid.wrap_cell(c).x == grid.wrap_cell(Cell { x: c.x, y: other }).x,
        grid.wrap_cell(c).y == grid.wrap_cell(Cell { x: other, y: c.y }).y,
{
}

/// The lattice holds exactly the multiples of the step that are at least the
/// negative half-extent and less than the positive one.
pub proof fn lattice_is_the_multiples_of_step(grid: Grid, c: int)
    requires
        grid.wf(),
    ensures
        grid.lattice().contains(c) <==> {
            &&& -grid.spec_half_extent() <= c < grid.spec_half_extent()
            &&& c % grid.spec_step() == 0
        },
{
    let h = grid.spec_half_extent();
    let s = grid.spec_step();
    let q = h / s;
    let n = grid.spec_cells_per_axis() as int;
    vstd::arithmetic::div_mod::lemma_fundamental_div_mod(h, s);
    assert(h == s * q);
    assert(q >= 1) by (nonlinear_arith)
        requires
            h == s * q,
            0 < s <= h,
    ;
    assert(n == 2 * q);
    if grid.lattice().contains(c) {
        let k = choose|k: int| 0 <= k < grid.lattice().len() && grid.lattice()[k] == c;
        assert(c == -h + k * s);
        assert(c == (k - q) * s) by (nonlinear_arith)
            requires
                c == -h + k * s,
                h == s * q,
        ;
        vstd::arithmetic::div_mod::lemma_mod_multiples_basic(k - q, s);
        assert(-h <= c < h) by (nonlinear_arith)
            requires
                c == -h + k * s,
                h == s * q,
                0 <= k < 2 * q,
                0 < s,
        ;
    }
    if -h <= c < h && c % s == 0 {
        vstd::arithmetic::div_mod::lemma_fundamental_div_mod(c, s);
        let m = c / s;
        assert(c == s * m);
        assert(-q <= m < q) by (nonlinear_arith)
            requires
                c == s * m,
                h == s * q,
                -h <= c < h,
                0 < s,
        ;
        let k = m + q;
        assert(-h + k * s == c) by (nonlinear_arith)
            requires
                c == s * m,
                h == s * q,
                k == m + q,
        ;
        assert(grid.lattice()[k] == c);
    }
}

/// Wrapping a coordinate that is a multiple of the step gives a multiple of
/// the step, since the half-extent is one.
pub proof fn wrap_keeps_cell_aligned(grid: Grid, c: Cell)
    requires
        grid.wf(),
        c.aligned(grid.spec_step()),
    ensures
        grid.wrap_cell(c).aligned(grid.spec_step()),
{
    let h = grid.spec_half_extent();
    let s = grid.spec_step();
    vstd::arithmetic::div_mod::lemma_fundamental_div_mod(h, s);
    let q = h / s;
    assert(-h == (-q) * s) by (nonlinear_arith)
        requires
            h == s * q,
    ;
    vstd::arithmetic::div_mod::lemma_mod_multiples_basic(-q, s);
}

} // verus!
