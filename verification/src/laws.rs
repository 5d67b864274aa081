//! Laws of the grid model: what holds of every grid, whatever its size and
//! contents.

use vstd::prelude::*;
use crate::automatons::{CellState, Gol, Seeds, BB};
use crate::game::Game;
use crate::grid::{
    cleared, hit, in_stripe, neighbor_count, next_state_at, painted, rectangular, state_at,
    stepped, stripe_of, surround_spec, Grid,
};
use crate::torus::{lemma_wrap_period, lemma_wrap_small, wrap};

verus! {

/// The torus has no border: moving a coordinate by the grid's width or
/// height in either direction denotes the same cell.
pub proof fn law_torus_is_periodic<T: CellState>(g: Grid<T>, x: int, y: int)
    requires
        rectangular(g),
    ensures
        state_at(g, x + g.len(), y) == state_at(g, x, y),
        state_at(g, x - g.len(), y) == state_at(g, x, y),
        state_at(g, x, y + g[0].len()) == state_at(g, x, y),
        state_at(g, x, y - g[0].len()) == state_at(g, x, y),
        0 <= wrap(x, g.len() as int) < g.len(),
        0 <= wrap(y, g[0].len() as int) < g[0].len(),
{
    lemma_wrap_period(x, g.len() as int);
    lemma_wrap_period(y, g[0].len() as int);
}

/// A coordinate one step outside an edge denotes the cell on the opposite
/// edge, on all four edges and at all four corners.
pub proof fn law_edges_meet<T: CellState>(g: Grid<T>, x: int, y: int)
    requires
        rectangular(g),
        0 <= x < g.len(),
        0 <= y < g[0].len(),
    ensures
        state_at(g, x, y) == g[x][y].state,
        state_at(g, -1, y) == g[g.len() - 1][y].state,
        state_at(g, g.len() as int, y) == g[0][y].state,
        state_at(g, x, -1) == g[x][g[0].len() - 1].state,
        state_at(g, x, g[0].len() as int) == g[x][0].state,
        state_at(g, -1, -1) == g[g.len() - 1][g[0].len() - 1].state,
        state_at(g, g.len() as int, -1) == g[0][g[0].len() - 1].state,
        state_at(g, -1, g[0].len() as int) == g[g.len() - 1][0].state,
        state_at(g, g.len() as int, g[0].len() as int) == g[0][0].state,
{
    let w = g.len() as int;
    let h = g[0].len() as int;
    lemma_wrap_small(x, w);
    lemma_wrap_small(y, h);
    lemma_wrap_small(0, w);
    lemma_wrap_small(0, h);
    lemma_wrap_small(w - 1, w);
    lemma_wrap_small(h - 1, h);
    lemma_wrap_period(-1, w);
    lemma_wrap_period(-1, h);
    lemma_wrap_period(0, w);
    lemma_wrap_period(0, h);
}

/// Neighbor counts are the same for all coordinates that denote one cell.
pub proof fn law_counts_are_periodic<T: CellState>(g: Grid<T>, x: int, y: int, ord: nat)
    requires
        rectangular(g),
    ensures
        neighbor_count(g, x + g.len(), y, ord) == neighbor_count(g, x, y, ord),
        neighbor_count(g, x, y + g[0].len(), ord) == neighbor_count(g, x, y, ord),
{
    let w = g.len() as int;
    let h = g[0].len() as int;
    lemma_hit_is_periodic(g, x - 1, y - 1, ord);
    lemma_hit_is_periodic(g, x, y - 1, ord);
    lemma_hit_is_periodic(g, x + 1, y - 1, ord);
    lemma_hit_is_periodic(g, x - 1, y, ord);
    lemma_hit_is_periodic(g, x + 1, y, ord);
    lemma_hit_is_periodic(g, x - 1, y + 1, ord);
    lemma_hit_is_periodic(g, x, y + 1, ord);
    lemma_hit_is_periodic(g, x + 1, y + 1, ord);
}

/// Whether a cell has a given ordinal does not depend on which of its
/// coordinates is asked.
proof fn lemma_hit_is_periodic<T: CellState>(g: Grid<T>, x: int, y: int, ord: nat)
    requires
        rectangular(g),
    ensures
        hit(g, x + g.len(), y, ord) == hit(g, x, y, ord),
        hit(g, x, y + g[0].len(), ord) == hit(g, x, y, ord),
{
    law_torus_is_periodic(g, x, y);
}

/// Neighbor count vectors, and with them the next state, are the same for
/// all coordinates that denote one cell.
pub proof fn law_surround_is_periodic<T: CellState>(g: Grid<T>, x: int, y: int)
    requires
        rectangular(g),
    ensures
        surround_spec(g, x + g.len(), y) == surround_spec(g, x, y),
        surround_spec(g, x, y + g[0].len()) == surround_spec(g, x, y),
        next_state_at(g, x + g.len(), y) == next_state_at(g, x, y),
        next_state_at(g, x, y + g[0].len()) == next_state_at(g, x, y),
{
    let w = g.len() as int;
    let h = g[0].len() as int;
    let here = surround_spec(g, x, y);
    let right = surround_spec(g, x + w, y);
    let below = surround_spec(g, x, y + h);
    law_torus_is_periodic(g, x, y);
    assert forall|i: int| 0 <= i < here.len() implies right[i] == here[i] && below[i]
        == here[i] by {
        if i < T::num_spec() {
            law_counts_are_periodic(g, x, y, i as nat);
        }
    }
    assert(right =~= here);
    assert(below =~= here);
}

/// A step changes the state of cells only: the grid keeps its shape and
/// every cell keeps its rectangle.
pub proof fn law_step_keeps_rectangles<T: CellState>(g: Grid<T>, i: int, j: int)
    requires
        0 <= i < g.len(),
        0 <= j < g[i].len(),
    ensures
        stepped(g).len() == g.len(),
        stepped(g)[i].len() == g[i].len(),
        stepped(g)[i][j].rect == g[i][j].rect,
        stepped(g)[i][j].state == next_state_at(g, i, j),
        rectangular(g) ==> rectangular(stepped(g)),
{
    if rectangular(g) {
        let s = stepped(g);
        assert forall|a: int| 0 <= a < s.len() implies (#[trigger] s[a]).len() == s[0].len() by {
            assert(g[a].len() == g[0].len());
        }
    }
}

/// The stripes of a sweep divide the columns among them: every column
/// lies in one stripe and in no other, so no two stripes write the same
/// column.
pub proof fn law_stripes_partition_columns(x: int, workers: int)
    requires
        x >= 0,
        workers >= 1,
    ensures
        0 <= stripe_of(x, workers) < workers,
        in_stripe(x, stripe_of(x, workers), workers),
        forall|t: int| 0 <= t < workers && in_stripe(x, t, workers) ==> t == stripe_of(x, workers),
{
    vstd::arithmetic::div_mod::lemma_fundamental_div_mod(x, workers);
    vstd::arithmetic::div_mod::lemma_mod_bound(x, workers);
    let q = x / workers;
    let r = x % workers;
    assert(q >= 0 && q * workers == workers * q) by (nonlinear_arith)
        requires
            x >= 0,
            workers >= 1,
            x == workers * q + r,
            0 <= r < workers,
    ;
    assert(x == r + q * workers);
    assert forall|t: int| 0 <= t < workers && in_stripe(x, t, workers) implies t == stripe_of(
        x,
        workers,
    ) by {
        let k = choose|k: int| k >= 0 && x == t + #[trigger] (k * workers);
        vstd::arithmetic::div_mod::lemma_fundamental_div_mod_converse(x, workers, k, t);
    }
}

/// Clearing a cleared grid changes nothing.
pub proof fn law_clear_is_idempotent<T: CellState>(g: Grid<T>)
    ensures
        cleared(cleared(g)) == cleared(g),
{
    let once = cleared(g);
    let twice = cleared(once);
    assert forall|i: int| 0 <= i < once.len() implies twice[i] == once[i] by {
        assert(twice[i] =~= once[i]);
    }
    assert(twice =~= once);
}

/// Painting a cell a second time with the same state changes nothing, so
/// a gesture that comes back to a cell it painted leaves it as it is.
pub proof fn law_repaint_changes_nothing<T: CellState>(g: Grid<T>, i: int, j: int, state: T)
    requires
        0 <= i < g.len(),
        0 <= j < g[i].len(),
    ensures
        painted(painted(g, i, j, state), i, j, state) == painted(g, i, j, state),
        painted(g, i, j, state)[i][j].state == state,
        painted(g, i, j, state)[i][j].rect == g[i][j].rect,
{
    let once = painted(g, i, j, state);
    let twice = painted(once, i, j, state);
    assert(twice[i] =~= once[i]);
    assert(twice =~= once);
}

/// Within one gesture the first contact decides: it latches the state
/// after the touched cell's own in the toggle cycle, and every later
/// contact paints with the latched state, whatever the state of the cell
/// it touches.
pub proof fn law_first_contact_decides<T: CellState>(first: T, later: T)
    ensures
        Game::<T>::paint_state(None, first) == first.toggle_spec(),
        Game::<T>::paint_state(Some(Game::<T>::paint_state(None, first)), later)
            == first.toggle_spec(),
{
}

/// In a family of two states every neighbor is counted once: the dead and
/// the alive neighbors of a cell are eight together.
proof fn lemma_two_states_count_eight<T: CellState>(g: Grid<T>, x: int, y: int)
    requires
        T::num_spec() == 2,
    ensures
        neighbor_count(g, x, y, 0) + neighbor_count(g, x, y, 1) == 8,
{
    T::ordinals_identify_states();
    assert forall|a: int, b: int| #[trigger] hit(g, a, b, 0) + hit(g, a, b, 1) == 1 by {
        assert(state_at(g, a, b).ordinal_spec() < 2);
    }
    assert(hit(g, x - 1, y - 1, 0) + hit(g, x - 1, y - 1, 1) == 1);
    assert(hit(g, x, y - 1, 0) + hit(g, x, y - 1, 1) == 1);
    assert(hit(g, x + 1, y - 1, 0) + hit(g, x + 1, y - 1, 1) == 1);
    assert(hit(g, x - 1, y, 0) + hit(g, x - 1, y, 1) == 1);
    assert(hit(g, x + 1, y, 0) + hit(g, x + 1, y, 1) == 1);
    assert(hit(g, x - 1, y + 1, 0) + hit(g, x - 1, y + 1, 1) == 1);
    assert(hit(g, x, y + 1, 0) + hit(g, x, y + 1, 1) == 1);
    assert(hit(g, x + 1, y + 1, 0) + hit(g, x + 1, y + 1, 1) == 1);
}

/// Game of Life is the rule B3/S23: a cell is alive in the next generation
/// exactly when three of its neighbors are alive, or when it is alive and
/// two of its neighbors are.
pub proof fn law_life_is_b3s23(g: Grid<Gol>, x: int, y: int)
    ensures
        next_state_at(g, x, y) == Gol::Gray <==> (neighbor_count(g, x, y, 1) == 3 || (
        neighbor_count(g, x, y, 1) == 2 && state_at(g, x, y) == Gol::Gray)),
{
    lemma_two_states_count_eight::<Gol>(g, x, y);
    let s = surround_spec(g, x, y);
    assert(s.len() == 3);
    assert(s[0] == neighbor_count(g, x, y, 0) as u8);
    assert(s[1] == neighbor_count(g, x, y, 1) as u8);
    assert(s[2] == state_at(g, x, y).ordinal_spec() as u8);
}

/// Seeds has births and no survivors: a cell is alive in the next
/// generation exactly when two of its neighbors are alive, whatever its
/// own state.
pub proof fn law_seeds_births_only(g: Grid<Seeds>, x: int, y: int)
    ensures
        next_state_at(g, x, y) == Seeds::Gray <==> neighbor_count(g, x, y, 1) == 2,
{
    lemma_two_states_count_eight::<Seeds>(g, x, y);
    let s = surround_spec(g, x, y);
    assert(s.len() == 3);
    assert(s[1] == neighbor_count(g, x, y, 1) as u8);
}

/// Brian's Brain runs every excited cell through its cycle, whatever its
/// neighbors do: a gray cell is red one step later, a red cell is white
/// one step later, and a white cell turns gray exactly when two of its
/// neighbors are gray.
pub proof fn law_brain_cycle(g: Grid<BB>, x: int, y: int)
    ensures
        state_at(g, x, y) == BB::Gray ==> next_state_at(g, x, y) == BB::Red,
        state_at(g, x, y) == BB::Red ==> next_state_at(g, x, y) == BB::White,
        state_at(g, x, y) == BB::White ==> (next_state_at(g, x, y) == BB::Gray <==> neighbor_count(
            g,
            x,
            y,
            2,
        ) == 2),
        state_at(g, x, y) == BB::White ==> next_state_at(g, x, y) != BB::Red,
{
    let s = surround_spec(g, x, y);
    assert(s.len() == 4);
    assert(s[2] == neighbor_count(g, x, y, 2) as u8);
    assert(s[3] == state_at(g, x, y).ordinal_spec() as u8);
}

/// On a grid of Brian's Brain, a gray cell is red after one step and white
/// after two, and a red cell is white after one step.
pub proof fn law_brain_cycle_on_grid(g: Grid<BB>, i: int, j: int)
    requires
        rectangular(g),
        0 <= i < g.len(),
        0 <= j < g[0].len(),
    ensures
        g[i][j].state == BB::Gray ==> stepped(g)[i][j].state == BB::Red && stepped(
            stepped(g),
        )[i][j].state == BB::White,
        g[i][j].state == BB::Red ==> stepped(g)[i][j].state == BB::White,
{
    let s = stepped(g);
    assert(g[i].len() == g[0].len());
    law_edges_meet(g, i, j);
    law_brain_cycle(g, i, j);
    law_step_keeps_rectangles(g, i, j);
    law_edges_meet(s, i, j);
    law_brain_cycle(s, i, j);
    law_step_keeps_rectangles(s, i, j);
}

/// On a grid of Seeds, the cells alive after a step are exactly those with
/// two alive neighbors before it: an alive cell without two alive
/// neighbors dies, and a dead cell with two is born.
pub proof fn law_seeds_on_grid(g: Grid<Seeds>, i: int, j: int)
    requires
        rectangular(g),
        0 <= i < g.len(),
        0 <= j < g[0].len(),
    ensures
        stepped(g)[i][j].state == Seeds::Gray <==> neighbor_count(g, i, j, 1) == 2,
{
    assert(g[i].len() == g[0].len());
    law_seeds_births_only(g, i, j);
    law_step_keeps_rectangles(g, i, j);
}

/// On a grid of Game of Life, the cells alive after a step are exactly
/// those that had three alive neighbors, or were alive with two.
pub proof fn law_life_on_grid(g: Grid<Gol>, i: int, j: int)
    requires
        rectangular(g),
        0 <= i < g.len(),
        0 <= j < g[0].len(),
    ensures
        stepped(g)[i][j].state == Gol::Gray <==> (neighbor_count(g, i, j, 1) == 3 || (
        neighbor_count(g, i, j, 1) == 2 && g[i][j].state == Gol::Gray)),
{
    assert(g[i].len() == g[0].len());
    law_edges_meet(g, i, j);
    law_life_is_b3s23(g, i, j);
    law_step_keeps_rectangles(g, i, j);
}

} // verus!
