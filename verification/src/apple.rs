//! Where a new apple may be put, and the choice among those places.
//!
//! The two axes are treated apart. Along each axis the candidates are the
//! coordinates of the lattice that differ from the coordinate of at least
//! one occupied cell: a coordinate is struck out only when every occupied
//! cell has it. The apple takes one candidate of each axis. This keeps it out
//! of a row or column that holds the whole body; it does not keep it off
//! every occupied cell (see [`apple_may_land_on_the_body`]).

use vstd::prelude::*;
use crate::grid::Grid;
use crate::position::{cells_of, Axis, Cell, Position};

verus! {

/// The integers that a list of coordinates stands for.
pub open spec fn ints_of(coordinates: Seq<i32>) -> Seq<int> {
    coordinates.map_values(|c: i32| c as int)
}

/// Some occupied cell has, along `axis`, a coordinate other than `v`.
pub open spec fn differs_somewhere(v: int, occupied: Seq<Cell>, axis: Axis) -> bool {
    exists|i: int| 0 <= i < occupied.len() && (#[trigger] occupied[i]).along(axis) != v
}

/// The test by which a coordinate of the lattice becomes a candidate.
pub open spec fn is_candidate(occupied: Seq<Cell>, axis: Axis) -> spec_fn(int) -> bool {
    |v: int| differs_somewhere(v, occupied, axis)
}

/// The candidates along `axis`, in rising order.
pub open spec fn axis_candidates(grid: Grid, occupied: Seq<Cell>, axis: Axis) -> Seq<int> {
    grid.lattice().filter(is_candidate(occupied, axis))
}

/// The cell is one that a new apple may take: each of its coordinates is a
/// candidate along its axis.
pub open spec fn may_hold_apple(grid: Grid, occupied: Seq<Cell>, c: Cell) -> bool {
    &&& axis_candidates(grid, occupied, Axis::X).contains(c.x)
    &&& axis_candidates(grid, occupied, Axis::Y).contains(c.y)
}

/// The cell that two drawn numbers select: each number, reduced modulo the
/// number of candidates along its axis, is an index among them.
pub open spec fn apple_for_draws(grid: Grid, occupied: Seq<Cell>, x_draw: nat, y_draw: nat) -> Cell {
    let xs = axis_candidates(grid, occupied, Axis::X);
    let ys = axis_candidates(grid, occupied, Axis::Y);
    Cell { x: xs[(x_draw % xs.len()) as int], y: ys[(y_draw % ys.len()) as int] }
}

/// Whether some position of the list has, along `axis`, a coordinate other
/// than `v`.
pub fn differs_from_some(occupied: &Vec<Position>, axis: Axis, v: i32) -> (found: bool)
    ensures
        found == differs_somewhere(v as int, cells_of(occupied@), axis),
{
    let n = occupied.len();
    let mut i: usize = 0;
    while i < n
        invariant
            i <= n,
            n == occupied@.len(),
            forall|j: int| 0 <= j < i ==> (#[trigger] cells_of(occupied@)[j]).along(axis) == v,
        decreases n - i,
    {
        if occupied[i].along(axis) != v {
            assert(cells_of(occupied@)[i as int].along(axis) != v);
            return true;
        }
        i += 1;
    }
    false
}

/// The candidates along `axis` for a new apple, in rising order.
pub fn candidates(grid: &Grid, occupied: &Vec<Position>, axis: Axis) -> (out: Vec<i32>)
    requires
        grid.wf(),
    ensures
        ints_of(out@) == axis_candidates(*grid, cells_of(occupied@), axis),
{
    let count = grid.cells_per_axis();
    let step = grid.step();
    let h = grid.half_extent();
    let ghost lattice = grid.lattice();
    let ghost keep = is_candidate(cells_of(occupied@), axis);
    let mut out: Vec<i32> = Vec::new();
    let mut v: i32 = -h;
    let mut k: usize = 0;
    proof {
        reveal(Seq::filter);
        assert(lattice.take(0) =~= Seq::<int>::empty());
        assert(ints_of(out@) =~= lattice.take(0).filter(keep));
    }
    while k < count
        invariant
            grid.wf(),
            k <= count <= 65534,
            count == lattice.len(),
            lattice == grid.lattice(),
            keep == is_candidate(cells_of(occupied@), axis),
            0 < step <= h <= i16::MAX,
            h == grid.spec_half_extent(),
            step == grid.spec_step(),
            count == 2 * (h as int / step as int),
            v == -h + k * step,
            ints_of(out@) == lattice.take(k as int).filter(keep),
        decreases count - k,
    {
        proof {
            let q = h as int / step as int;
            vstd::arithmetic::div_mod::lemma_fundamental_div_mod(h as int, step as int);
            assert(h == step * q);
            assert(k * step < 2 * h) by (nonlinear_arith)
                requires
                    h == step * q,
                    0 <= k < 2 * q,
                    0 < step,
            ;
            assert((k + 1) * step == k * step + step) by (nonlinear_arith);
            assert(0 <= k * step) by (nonlinear_arith)
                requires
                    0 <= k,
                    0 < step,
            ;
            let next = lattice.take(k as int + 1);
            assert(next.drop_last() =~= lattice.take(k as int));
            assert(next.last() == lattice[k as int]);
            assert(lattice[k as int] == v);
            reveal(Seq::filter);
            assert(next.filter(keep) == if keep(v as int) {
                lattice.take(k as int).filter(keep).push(v as int)
            } else {
                lattice.take(k as int).filter(keep)
            });
        }
        let ghost before = out@;
        if differs_from_some(occupied, axis, v) {
            out.push(v);
            assert(ints_of(out@) =~= ints_of(before).push(v as int));
        }
        v = v + step;
        k += 1;
    }
    assert(lattice.take(count as int) =~= lattice);
    out
}

/// The generator of `rand` that lives in the current thread. Nothing of its
/// state is visible to contracts.
#[verifier::external_type_specification]
#[verifier::external_body]
pub struct ExThreadRng(rand::rngs::ThreadRng);

/// `rand::thread_rng` hands out that generator. Nothing is claimed of it.
pub assume_specification[ rand::thread_rng ]() -> (rng: rand::rngs::ThreadRng);

/// Draws an index below `bound` at random.
///
/// The body calls `rand::seq::IteratorRandom::choose` on the range
/// `0..bound`. The contract is what `choose` documents, and nothing about
/// which index comes: `None` exactly when the range is empty, and otherwise
/// one of its items, all of which lie below `bound`. Neither is proved
/// here.
#[verifier::external_body]
fn choose_index(bound: usize, rng: &mut rand::rngs::ThreadRng) -> (picked: Option<usize>)
    ensures
        picked is None <==> bound == 0,
        picked matches Some(i) ==> i < bound,
{
    rand::seq::IteratorRandom::choose(0..bound, rng)
}

/// The place for a new apple that two given numbers select among the
/// candidates: the deterministic counterpart of [`place_apple`].
pub fn place_apple_with(
    grid: &Grid,
    occupied: &Vec<Position>,
    x_draw: usize,
    y_draw: usize,
) -> (apple: Position)
    requires
        grid.wf(),
        occupied@.len() >= 1,
    ensures
        apple@ == apple_for_draws(*grid, cells_of(occupied@), x_draw as nat, y_draw as nat),
        may_hold_apple(*grid, cells_of(occupied@), apple@),
        differs_somewhere(apple@.x, cells_of(occupied@), Axis::X),
        differs_somewhere(apple@.y, cells_of(occupied@), Axis::Y),
{
    let xs = candidates(grid, occupied, Axis::X);
    let ys = candidates(grid, occupied, Axis::Y);
    proof {
        may_hold_apple_means(
            *grid,
            cells_of(occupied@),
            apple_for_draws(*grid, cells_of(occupied@), x_draw as nat, y_draw as nat),
        );
        candidates_exist(*grid, cells_of(occupied@), Axis::X);
        candidates_exist(*grid, cells_of(occupied@), Axis::Y);
        assert(ints_of(xs@).len() == xs@.len());
        assert(ints_of(ys@).len() == ys@.len());
    }
    let i = x_draw % xs.len();
    let j = y_draw % ys.len();
    assert(ints_of(xs@)[i as int] == xs@[i as int]);
    assert(ints_of(ys@)[j as int] == ys@[j as int]);
    Position { x: xs[i], y: ys[j] }
}

/// A place for a new apple, chosen at random: along each axis every
/// candidate is as likely as any other.
///
/// Which candidates come is left to the generator; the contract states what
/// holds of all of them.
pub fn place_apple(grid: &Grid, occupied: &Vec<Position>) -> (apple: Position)
    requires
        grid.wf(),
        occupied@.len() >= 1,
    ensures
        may_hold_apple(*grid, cells_of(occupied@), apple@),
        differs_somewhere(apple@.x, cells_of(occupied@), Axis::X),
        differs_somewhere(apple@.y, cells_of(occupied@), Axis::Y),
        exists|x_draw: nat, y_draw: nat|
            apple@ == #[trigger] apple_for_draws(*grid, cells_of(occupied@), x_draw, y_draw),
{
    let xs = candidates(grid, occupied, Axis::X);
    let ys = candidates(grid, occupied, Axis::Y);
    proof {
        assert forall|c: Cell| may_hold_apple(*grid, cells_of(occupied@), c) implies {
            &&& differs_somewhere(c.x, cells_of(occupied@), Axis::X)
            &&& differs_somewhere(c.y, cells_of(occupied@), Axis::Y)
        } by {
            may_hold_apple_means(*grid, cells_of(occupied@), c);
        }
        candidates_exist(*grid, cells_of(occupied@), Axis::X);
        candidates_exist(*grid, cells_of(occupied@), Axis::Y);
        assert(ints_of(xs@).len() == xs@.len());
        assert(ints_of(ys@).len() == ys@.len());
    }
    let mut rng = rand::thread_rng();
    let x_pick = choose_index(xs.len(), &mut rng);
    let y_pick = choose_index(ys.len(), &mut rng);
    match (x_pick, y_pick) {
        (Some(i), Some(j)) => {
            let apple = Position { x: xs[i], y: ys[j] };
            proof {
                assert(ints_of(xs@)[i as int] == xs@[i as int]);
                assert(ints_of(ys@)[j as int] == ys@[j as int]);
                vstd::arithmetic::div_mod::lemma_small_mod(i as nat, xs@.len());
                vstd::arithmetic::div_mod::lemma_small_mod(j as nat, ys@.len());
                assert(apple@ == apple_for_draws(
                    *grid,
                    cells_of(occupied@),
                    i as nat,
                    j as nat,
                ));
            }
            apple
        },
        _ => vstd::pervasive::unreached(),
    }
}

/// On a valid field, and with at least one occupied cell, there is a
/// candidate along each axis: the lattice has two coordinates at least, and
/// no cell has both.
pub proof fn candidates_exist(grid: Grid, occupied: Seq<Cell>, axis: Axis)
    requires
        grid.wf(),
        occupied.len() >= 1,
    ensures
        axis_candidates(grid, occupied, axis).len() >= 1,
{
    let h = grid.spec_half_extent();
    let s = grid.spec_step();
    let lattice = grid.lattice();
    let keep = is_candidate(occupied, axis);
    vstd::arithmetic::div_mod::lemma_fundamental_div_mod(h, s);
    assert(h / s >= 1) by (nonlinear_arith)
        requires
            h == s * (h / s) + (h % s),
            h % s == 0,
            0 < s <= h,
    ;
    assert(lattice.len() >= 2);
    assert(lattice[0] == -h);
    assert(lattice[1] == -h + s);
    let taken = occupied[0].along(axis);
    let k: int = if taken != lattice[0] {
        0
    } else {
        1
    };
    assert(occupied[0].along(axis) != lattice[k]);
    assert(keep(lattice[k]));
    lattice.lemma_filter_contains(keep, k);
}

/// A cell may hold the apple exactly when each of its coordinates lies on
/// the lattice and differs from that coordinate of some occupied cell.
pub proof fn may_hold_apple_means(grid: Grid, occupied: Seq<Cell>, apple: Cell)
    ensures
        may_hold_apple(grid, occupied, apple) <==> {
            &&& grid.lattice().contains(apple.x)
            &&& differs_somewhere(apple.x, occupied, Axis::X)
            &&& grid.lattice().contains(apple.y)
            &&& differs_somewhere(apple.y, occupied, Axis::Y)
        },
{
    candidate_means(grid, occupied, Axis::X, apple.x);
    candidate_means(grid, occupied, Axis::Y, apple.y);
}

/// A coordinate is a candidate along an axis exactly when it lies on the
/// lattice and differs from that coordinate of some occupied cell.
pub proof fn candidate_means(grid: Grid, occupied: Seq<Cell>, axis: Axis, v: int)
    ensures
        axis_candidates(grid, occupied, axis).contains(v) <==> {
            &&& grid.lattice().contains(v)
            &&& differs_somewhere(v, occupied, axis)
        },
{
    let lattice = grid.lattice();
    let keep = is_candidate(occupied, axis);
    let kept = lattice.filter(keep);
    if kept.contains(v) {
        let a = choose|a: int| 0 <= a < kept.len() && kept[a] == v;
        lattice.lemma_filter_pred(keep, a);
        lattice.lemma_filter_contains_rev(keep, v);
        assert(keep(v));
    }
    if lattice.contains(v) && differs_somewhere(v, occupied, axis) {
        let k = choose|k: int| 0 <= k < lattice.len() && lattice[k] == v;
        assert(keep(lattice[k]));
        lattice.lemma_filter_contains(keep, k);
    }
}

/// The apple may be put on an occupied cell: a cell of the body that lies
/// on the lattice may hold the apple as soon as one other cell differs from
/// it in x and one, the same or another, differs from it in y.
pub proof fn apple_may_land_on_the_body(grid: Grid, occupied: Seq<Cell>, i: int, j: int, k: int)
    requires
        0 <= i < occupied.len(),
        0 <= j < occupied.len(),
        0 <= k < occupied.len(),
        grid.lattice().contains(occupied[i].x),
        grid.lattice().contains(occupied[i].y),
        occupied[j].x != occupied[i].x,
        occupied[k].y != occupied[i].y,
    ensures
        may_hold_apple(grid, occupied, occupied[i]),
{
    may_hold_apple_means(grid, occupied, occupied[i]);
    assert(occupied[j].along(Axis::X) != occupied[i].x);
    assert(occupied[k].along(Axis::Y) != occupied[i].y);
}

/// Wherever an apple may be put, its x differs from the x of some occupied
/// cell and its y from the y of some occupied cell. So it is never the case
/// that its x is the x of every occupied cell and its y the y of every
/// occupied cell. Both its coordinates lie on the lattice.
pub proof fn apple_avoids_full_lines(grid: Grid, occupied: Seq<Cell>, apple: Cell)
    requires
        grid.wf(),
        may_hold_apple(grid, occupied, apple),
    ensures
        exists|i: int| 0 <= i < occupied.len() && (#[trigger] occupied[i]).x != apple.x,
        exists|j: int| 0 <= j < occupied.len() && (#[trigger] occupied[j]).y != apple.y,
        !({
            &&& forall|i: int| 0 <= i < occupied.len() ==> (#[trigger] occupied[i]).x == apple.x
            &&& forall|j: int| 0 <= j < occupied.len() ==> (#[trigger] occupied[j]).y == apple.y
        }),
        grid.lattice().contains(apple.x),
        grid.lattice().contains(apple.y),
{
    let lattice = grid.lattice();
    let keep_x = is_candidate(occupied, Axis::X);
    let keep_y = is_candidate(occupied, Axis::Y);
    let xs = lattice.filter(keep_x);
    let ys = lattice.filter(keep_y);
    let a = choose|a: int| 0 <= a < xs.len() && xs[a] == apple.x;
    let b = choose|b: int| 0 <= b < ys.len() && ys[b] == apple.y;
    lattice.lemma_filter_pred(keep_x, a);
    lattice.lemma_filter_pred(keep_y, b);
    lattice.lemma_filter_contains_rev(keep_x, apple.x);
    lattice.lemma_filter_contains_rev(keep_y, apple.y);
    assert(keep_x(apple.x));
    assert(keep_y(apple.y));
    let i = choose|i: int| 0 <= i < occupied.len() && (#[trigger] occupied[i]).along(Axis::X) != apple.x;
    assert(occupied[i].x != apple.x);
    let j = choose|j: int| 0 <= j < occupied.len() && (#[trigger] occupied[j]).along(Axis::Y) != apple.y;
    assert(occupied[j].y != apple.y);
}

/// The cell that two drawn numbers select is one that an apple may take.
pub proof fn drawn_apple_may_be_held(grid: Grid, occupied: Seq<Cell>, x_draw: nat, y_draw: nat)
    requires
        grid.wf(),
        occupied.len() >= 1,
    ensures
        may_hold_apple(grid, occupied, apple_for_draws(grid, occupied, x_draw, y_draw)),
{
    candidates_exist(grid, occupied, Axis::X);
    candidates_exist(grid, occupied, Axis::Y);
    let xs = axis_candidates(grid, occupied, Axis::X);
    let ys = axis_candidates(grid, occupied, Axis::Y);
    assert(xs.contains(xs[(x_draw % xs.len()) as int]));
    assert(ys.contains(ys[(y_draw % ys.len()) as int]));
}

} // verus!
