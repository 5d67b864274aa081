//! The grid as a mathematical value, and what a generation step, clearing
//! and painting make of it.

use vstd::prelude::*;
use crate::automatons::{zero_state, CellState};
use crate::cell::Cell;
use crate::torus::wrap;

verus! {

/// A grid as a mathematical value: columns of cells.
pub type Grid<T> = Seq<Seq<Cell<T>>>;

/// The columns of a buffer as a grid.
pub open spec fn grid_of<T: CellState>(cells: Vec<Vec<Cell<T>>>) -> Grid<T> {
    Seq::new(cells@.len(), |i: int| cells@[i]@)
}

/// The grid has at least one column, and every column has the same
/// positive number of cells.
pub open spec fn rectangular<T: CellState>(g: Grid<T>) -> bool {
    &&& g.len() >= 1
    &&& g[0].len() >= 1
    &&& forall|i: int| 0 <= i < g.len() ==> (#[trigger] g[i]).len() == g[0].len()
}

/// The state of the cell that `(x, y)` denotes on the torus.
pub open spec fn state_at<T: CellState>(g: Grid<T>, x: int, y: int) -> T {
    g[wrap(x, g.len() as int)][wrap(y, g[0].len() as int)].state
}

/// One if the cell at `(x, y)` has the ordinal `ord`, else zero.
pub open spec fn hit<T: CellState>(g: Grid<T>, x: int, y: int, ord: nat) -> nat {
    if state_at(g, x, y).ordinal_spec() == ord {
        1
    } else {
        0
    }
}

/// How many of the eight cells around `(x, y)` have the ordinal `ord`.
pub open spec fn neighbor_count<T: CellState>(g: Grid<T>, x: int, y: int, ord: nat) -> nat {
    hit(g, x - 1, y - 1, ord) + hit(g, x, y - 1, ord) + hit(g, x + 1, y - 1, ord) + hit(
        g,
        x - 1,
        y,
        ord,
    ) + hit(g, x + 1, y, ord) + hit(g, x - 1, y + 1, ord) + hit(g, x, y + 1, ord) + hit(
        g,
        x + 1,
        y + 1,
        ord,
    )
}

/// The neighbor count vector of the cell at `(x, y)`: one neighbor count
/// per ordinal, then the cell's own ordinal in the last slot.
pub open spec fn surround_spec<T: CellState>(g: Grid<T>, x: int, y: int) -> Seq<u8> {
    Seq::new(
        T::num_spec() + 1,
        |i: int|
            if i < T::num_spec() {
                neighbor_count(g, x, y, i as nat) as u8
            } else {
                state_at(g, x, y).ordinal_spec() as u8
            },
    )
}

/// The state of the cell at `(x, y)` in the next generation.
pub open spec fn next_state_at<T: CellState>(g: Grid<T>, x: int, y: int) -> T {
    T::transition_spec(surround_spec(g, x, y))
}

/// The next generation: every cell takes the state its rule gives it from
/// the current grid, and keeps its rectangle.
pub open spec fn stepped<T: CellState>(g: Grid<T>) -> Grid<T> {
    Seq::new(
        g.len(),
        |i: int|
            Seq::new(
                g[i].len(),
                |j: int| (Cell { state: next_state_at(g, i, j), rect: g[i][j].rect }),
            ),
    )
}

/// The states of column `x` in the next generation, top to bottom.
pub open spec fn next_column_spec<T: CellState>(g: Grid<T>, x: int) -> Seq<T> {
    Seq::new(g[0].len(), |y: int| next_state_at(g, x, y))
}

/// `stripe` is the work of stripe `t` out of `workers` on the grid `g`:
/// the columns `t`, `t + workers`, `t + 2 * workers` and so on, as far as
/// the grid reaches, each with its states in the next generation.
pub open spec fn is_stripe<T: CellState>(
    stripe: Seq<(usize, Vec<T>)>,
    g: Grid<T>,
    t: int,
    workers: int,
) -> bool {
    &&& forall|k: int|
        0 <= k < stripe.len() ==> {
            &&& (#[trigger] stripe[k]).0 == t + k * workers
            &&& stripe[k].0 < g.len()
            &&& stripe[k].1@ == next_column_spec(g, stripe[k].0 as int)
        }
    &&& t + stripe.len() * workers >= g.len()
}

/// The grid with the states of column `x` replaced by `column`.
pub open spec fn with_column<T: CellState>(g: Grid<T>, x: int, column: Seq<T>) -> Grid<T> {
    g.update(x, Seq::new(g[x].len(), |y: int| (Cell { state: column[y], rect: g[x][y].rect })))
}

/// The grid with every cell in the zero-ordinal state, rectangles kept.
pub open spec fn cleared<T: CellState>(g: Grid<T>) -> Grid<T> {
    Seq::new(
        g.len(),
        |i: int|
            Seq::new(g[i].len(), |j: int| (Cell { state: zero_state::<T>(), rect: g[i][j].rect })),
    )
}

/// The grid with the cell at column `i`, row `j` set to `state`.
pub open spec fn painted<T: CellState>(g: Grid<T>, i: int, j: int, state: T) -> Grid<T> {
    g.update(i, g[i].update(j, Cell { state, rect: g[i][j].rect }))
}

/// The stripe that column `x` belongs to when the columns are dealt out in
/// turn to `workers` stripes.
pub open spec fn stripe_of(x: int, workers: int) -> int {
    x % workers
}

/// Column `x` is one of the columns `t`, `t + workers`, `t + 2 * workers`
/// and so on.
pub open spec fn in_stripe(x: int, t: int, workers: int) -> bool {
    exists|k: int| k >= 0 && x == t + #[trigger] (k * workers)
}

/// The zero state has the ordinal zero, and is the only state that has.
pub proof fn lemma_zero_state<T: CellState>(s: T)
    ensures
        zero_state::<T>().ordinal_spec() == 0,
        s.ordinal_spec() == 0 <==> s == zero_state::<T>(),
{
    T::ordinals_identify_states();
}

} // verus!
