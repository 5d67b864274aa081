//! The grid of cells: construction and geometry, neighbor counting, the
//! generation step, clearing and painting.

use vstd::prelude::*;
use crate::automatons::{zero_state, CellState};
use crate::cell::Cell;
use crate::grid::{
    cleared, grid_of, hit, is_stripe, lemma_zero_state, neighbor_count, next_column_spec,
    next_state_at, painted, rectangular, state_at, stepped, stripe_of, surround_spec, with_column,
    Grid,
};
use crate::rect::{Rect, MAX_COORD};
use crate::torus::{lemma_wrap_period, lemma_wrap_small, wrap, wrap_index};
use crate::workers::worker_count;

verus! {

/// Why a grid cannot be built.
#[derive(Debug, Clone, Copy, PartialEq, Eq, Structural)]
pub enum ConfigError {
    /// A grid or window dimension is zero.
    ZeroDimension,
    /// The window is too small to give every cell at least one pixel.
    ZeroCellSize,
}

/// A toroidal grid of cells, stored column by column, with a second buffer
/// of the same shape into which the next generation is written.
#[derive(Debug)]
pub struct Game<T: CellState> {
    pub cells: Vec<Vec<Cell<T>>>,
    next_cells: Vec<Vec<Cell<T>>>,
    width: usize,
    height: usize,
    rect_width: u32,
    rect_height: u32,
    gap_x: i32,
    gap_y: i32,
    offset_x: i32,
    offset_y: i32,
    mode: Option<T>,
}

/// The side of a square cell: the shorter window side divided by the
/// longer grid side, rounded down.
pub open spec fn cell_size(width: int, height: int, window_width: int, window_height: int) -> int {
    let grid_max = if width >= height {
        width
    } else {
        height
    };
    let window_min = if window_width <= window_height {
        window_width
    } else {
        window_height
    };
    window_min / grid_max
}

/// The offset that centers `count` cells of side `size` in a window side of
/// `window` pixels.
pub open spec fn centered(window: int, count: int, size: int) -> int {
    (window - count * size) / 2
}

/// The cell size is zero exactly when the grid has more cells than the
/// window has pixels; otherwise `count` cells fit in the window.
proof fn lemma_cell_size(grid_max: int, window_min: int, count: int)
    requires
        grid_max >= 1,
        window_min >= 0,
        0 <= count <= grid_max,
    ensures
        (window_min / grid_max == 0) <==> grid_max > window_min,
        window_min / grid_max >= 0,
        0 <= (window_min / grid_max) * count <= window_min,
        count * (window_min / grid_max) == (window_min / grid_max) * count,
{
    vstd::arithmetic::div_mod::lemma_fundamental_div_mod(window_min, grid_max);
    vstd::arithmetic::div_mod::lemma_mod_bound(window_min, grid_max);
    let q = window_min / grid_max;
    let r = window_min % grid_max;
    assert(q >= 0 && (q == 0 <==> grid_max > window_min) && 0 <= q * count <= window_min && count
        * q == q * count) by (nonlinear_arith)
        requires
            grid_max >= 1,
            window_min >= 0,
            0 <= count <= grid_max,
            window_min == grid_max * q + r,
            0 <= r < grid_max,
    ;
}

/// Two distinct columns of one stripe lie at least a stripe count apart.
proof fn lemma_stripe_gap(p: int, x: int, n: int)
    requires
        n > 0,
        p < x,
        p % n == x % n,
    ensures
        x >= p + n,
{
    vstd::arithmetic::div_mod::lemma_fundamental_div_mod(p, n);
    vstd::arithmetic::div_mod::lemma_fundamental_div_mod(x, n);
    let a = p / n;
    let b = x / n;
    let r = p % n;
    assert(b > a) by (nonlinear_arith)
        requires
            n > 0,
            p == n * a + r,
            x == n * b + r,
            p < x,
    ;
    assert(x >= p + n) by (nonlinear_arith)
        requires
            n > 0,
            p == n * a + r,
            x == n * b + r,
            b >= a + 1,
    ;
}

/// The `k`-th column of stripe `t` belongs to stripe `t`.
proof fn lemma_stripe_member(t: int, k: int, n: int)
    requires
        0 <= t < n,
        k >= 0,
    ensures
        stripe_of(t + k * n, n) == t,
{
    vstd::arithmetic::div_mod::lemma_fundamental_div_mod_converse(t + k * n, n, k, t);
}

/// The cell of side `p` that the distance `d` from the origin falls in
/// starts at or before `d` and ends after it; it has a negative index
/// exactly when the distance is negative.
proof fn lemma_floor_cell(d: int, p: int)
    requires
        p > 0,
    ensures
        p * (d / p) <= d < p * (d / p) + p,
        d < 0 <==> d / p < 0,
{
    vstd::arithmetic::div_mod::lemma_fundamental_div_mod(d, p);
    vstd::arithmetic::div_mod::lemma_mod_bound(d, p);
    let q = d / p;
    let r = d % p;
    assert(d < 0 ==> q < 0) by (nonlinear_arith)
        requires
            p > 0,
            d == p * q + r,
            0 <= r < p,
    ;
    assert(q < 0 ==> d < 0) by (nonlinear_arith)
        requires
            p > 0,
            d == p * q + r,
            0 <= r < p,
    ;
}

impl<T: CellState> Game<T> {
    /// The paint mode: the state that the gesture in progress gives every
    /// cell it touches, or `None` when no gesture is in progress.
    pub closed spec fn mode(&self) -> Option<T> {
        self.mode
    }

    /// The side of a cell in pixels, which is also the distance between
    /// the corners of two adjacent cells.
    pub closed spec fn pitch(&self) -> int {
        self.gap_x as int
    }

    /// The pixel column of the grid's left side.
    pub closed spec fn origin_x(&self) -> int {
        self.offset_x as int
    }

    /// The pixel row of the grid's top side.
    pub closed spec fn origin_y(&self) -> int {
        self.offset_y as int
    }

    /// The current generation as a grid: `cells`, column by column.
    pub closed spec fn grid(&self) -> Grid<T> {
        grid_of(self.cells)
    }

    /// The private fields agree with the visible grid: the recorded
    /// dimensions are its dimensions, both axes share one pitch, and the
    /// second buffer has the grid's shape and rectangles.
    pub closed spec fn fields_agree(&self) -> bool {
        &&& self.width == self.cells@.len()
        &&& self.height == self.cells@[0]@.len()
        &&& self.gap_y == self.gap_x
        &&& self.rect_width == self.gap_x
        &&& self.rect_height == self.gap_x
        &&& self.next_cells@.len() == self.cells@.len()
        &&& forall|i: int|
            0 <= i < self.cells@.len() ==> (#[trigger] self.next_cells@[i])@.len()
                == self.cells@[0]@.len()
        &&& forall|i: int, j: int|
            0 <= i < self.cells@.len() && 0 <= j < self.cells@[0]@.len() ==> (
            #[trigger] self.next_cells@[i]@[j]).rect == self.cells@[i]@[j].rect
    }

    /// The rectangle that the geometry assigns to column `i`, row `j`.
    pub open spec fn rect_of(&self, i: int, j: int) -> Rect {
        Rect {
            x: (self.origin_x() + i * self.pitch()) as i32,
            y: (self.origin_y() + j * self.pitch()) as i32,
            w: self.pitch() as u32,
            h: self.pitch() as u32,
        }
    }

    /// The grid is rectangular, its geometry lies inside the coordinate
    /// limits, and every cell has the rectangle the geometry assigns it.
    pub open spec fn wf(&self) -> bool {
        &&& self.fields_agree()
        &&& rectangular(self.grid())
        &&& self.grid().len() <= MAX_COORD
        &&& self.grid()[0].len() <= MAX_COORD
        &&& self.pitch() >= 1
        &&& self.origin_x() >= 0
        &&& self.origin_y() >= 0
        &&& self.origin_x() + self.grid().len() * self.pitch() <= MAX_COORD
        &&& self.origin_y() + self.grid()[0].len() * self.pitch() <= MAX_COORD
        &&& forall|i: int, j: int|
            0 <= i < self.grid().len() && 0 <= j < self.grid()[0].len() ==> (
            #[trigger] self.grid()[i][j]).rect == self.rect_of(i, j)
    }

    /// The same geometry as `other`.
    pub open spec fn same_frame(&self, other: &Self) -> bool {
        &&& self.pitch() == other.pitch()
        &&& self.origin_x() == other.origin_x()
        &&& self.origin_y() == other.origin_y()
    }

    /// One buffer of `width` columns of `height` cells in the zero-ordinal
    /// state, each with the rectangle that the geometry assigns it.
    fn build_cells(width: usize, height: usize, offset_x: i32, offset_y: i32, gap: i32) -> (cells:
        Vec<Vec<Cell<T>>>)
        requires
            1 <= width <= MAX_COORD,
            1 <= height <= MAX_COORD,
            gap >= 1,
            offset_x >= 0,
            offset_y >= 0,
            offset_x + width * gap <= MAX_COORD,
            offset_y + height * gap <= MAX_COORD,
        ensures
            cells@.len() == width,
            forall|i: int| 0 <= i < width ==> (#[trigger] cells@[i])@.len() == height,
            forall|i: int, j: int|
                0 <= i < width && 0 <= j < height ==> {
                    &&& (#[trigger] cells@[i]@[j]).state == zero_state::<T>()
                    &&& cells@[i]@[j].rect == (Rect {
                        x: (offset_x + i * gap) as i32,
                        y: (offset_y + j * gap) as i32,
                        w: gap as u32,
                        h: gap as u32,
                    })
                },
    {
        proof {
            T::ordinals_identify_states();
        }
        let zero = T::from_ordinal(0);
        proof {
            lemma_zero_state(zero);
        }
        let mut cells: Vec<Vec<Cell<T>>> = Vec::new();
        let mut i: usize = 0;
        while i < width
            invariant
                1 <= width <= MAX_COORD,
                1 <= height <= MAX_COORD,
                gap >= 1,
                offset_x >= 0,
                offset_y >= 0,
                offset_x + width * gap <= MAX_COORD,
                offset_y + height * gap <= MAX_COORD,
                zero == zero_state::<T>(),
                i <= width,
                cells@.len() == i,
                forall|a: int| 0 <= a < i ==> (#[trigger] cells@[a])@.len() == height,
                forall|a: int, b: int|
                    0 <= a < i && 0 <= b < height ==> {
                        &&& (#[trigger] cells@[a]@[b]).state == zero
                        &&& cells@[a]@[b].rect == (Rect {
                            x: (offset_x + a * gap) as i32,
                            y: (offset_y + b * gap) as i32,
                            w: gap as u32,
                            h: gap as u32,
                        })
                    },
            decreases width - i,
        {
            assert(0 <= i * gap <= width * gap) by (nonlinear_arith)
                requires
                    0 <= i < width,
                    gap >= 1,
            ;
            let x: i32 = offset_x + (i as i32) * gap;
            let mut column: Vec<Cell<T>> = Vec::new();
            let mut j: usize = 0;
            while j < height
                invariant
                    1 <= height <= MAX_COORD,
                    gap >= 1,
                    0 <= x <= MAX_COORD,
                    offset_y >= 0,
                    offset_y + height * gap <= MAX_COORD,
                    j <= height,
                    column@.len() == j,
                    forall|b: int|
                        0 <= b < j ==> {
                            &&& (#[trigger] column@[b]).state == zero
                            &&& column@[b].rect == (Rect {
                                x,
                                y: (offset_y + b * gap) as i32,
                                w: gap as u32,
                                h: gap as u32,
                            })
                        },
                decreases height - j,
            {
                assert(0 <= j * gap <= height * gap) by (nonlinear_arith)
                    requires
                        0 <= j < height,
                        gap >= 1,
                ;
                assert(gap <= height * gap) by (nonlinear_arith)
                    requires
                        1 <= height,
                        gap >= 1,
                ;
                let y: i32 = offset_y + (j as i32) * gap;
                column.push(Cell { state: zero, rect: Rect::new(x, y, gap as u32, gap as u32) });
                j = j + 1;
            }
            cells.push(column);
            i = i + 1;
        }
        cells
    }

    /// A grid of `width` by `height` cells in the zero-ordinal state,
    /// drawn as squares as large as the window allows and centered in it.
    /// The window dimensions must not exceed `MAX_COORD`, the largest pixel
    /// coordinate of a rectangle.
    pub fn new(width: usize, height: usize, window_width: u32, window_height: u32) -> (r: Result<
        Game<T>,
        ConfigError,
    >)
        requires
            window_width <= MAX_COORD,
            window_height <= MAX_COORD,
        ensures
            r == Err::<Game<T>, ConfigError>(ConfigError::ZeroDimension) <==> (width == 0 || height
                == 0 || window_width == 0 || window_height == 0),
            r == Err::<Game<T>, ConfigError>(ConfigError::ZeroCellSize) <==> (width != 0 && height
                != 0 && window_width != 0 && window_height != 0 && cell_size(
                width as int,
                height as int,
                window_width as int,
                window_height as int,
            ) == 0),
            r is Ok <==> (width != 0 && height != 0 && window_width != 0 && window_height != 0
                && cell_size(
                width as int,
                height as int,
                window_width as int,
                window_height as int,
            ) >= 1),
            r matches Ok(game) ==> {
                &&& game.wf()
                &&& game.grid().len() == width
                &&& game.grid()[0].len() == height
                &&& game.pitch() == cell_size(
                    width as int,
                    height as int,
                    window_width as int,
                    window_height as int,
                )
                &&& game.origin_x() == centered(window_width as int, width as int, game.pitch())
                &&& game.origin_y() == centered(window_height as int, height as int, game.pitch())
                &&& game.mode() == None::<T>
                &&& game.grid() == cleared(game.grid())
            },
    {
        if width == 0 || height == 0 || window_width == 0 || window_height == 0 {
            return Err(ConfigError::ZeroDimension);
        }
        let grid_max: usize = if width >= height {
            width
        } else {
            height
        };
        let window_min: u32 = if window_width <= window_height {
            window_width
        } else {
            window_height
        };
        proof {
            lemma_cell_size(grid_max as int, window_min as int, width as int);
            lemma_cell_size(grid_max as int, window_min as int, height as int);
        }
        if grid_max > window_min as usize {
            return Err(ConfigError::ZeroCellSize);
        }
        let rect_width: u32 = window_min / (grid_max as u32);
        let rect_height: u32 = rect_width;
        let gap_x: i32 = rect_width as i32;
        let gap_y: i32 = rect_height as i32;
        let offset_x: i32 = ((window_width - rect_width * (width as u32)) / 2) as i32;
        let offset_y: i32 = ((window_height - rect_height * (height as u32)) / 2) as i32;
        let cells = Self::build_cells(width, height, offset_x, offset_y, gap_x);
        let next_cells = Self::build_cells(width, height, offset_x, offset_y, gap_x);
        let game = Game {
            cells,
            next_cells,
            width,
            height,
            rect_width,
            rect_height,
            gap_x,
            gap_y,
            offset_x,
            offset_y,
            mode: None,
        };
        proof {
            let g = game.grid();
            assert forall|i: int| 0 <= i < g.len() implies (#[trigger] g[i]).len() == g[0].len() by {
                assert(game.cells@[i]@.len() == height);
            }
            assert forall|i: int, j: int| 0 <= i < width && 0 <= j < height implies (
            #[trigger] game.next_cells@[i]@[j]).rect == game.cells@[i]@[j].rect by {
                assert(game.cells@[i]@[j].state == zero_state::<T>());
            }
            assert forall|i: int, j: int| 0 <= i < g.len() && 0 <= j < g[0].len() implies (
            #[trigger] g[i][j]).rect == game.rect_of(i, j) by {
                assert(game.cells@[i]@[j].state == zero_state::<T>());
            }
            let want = cleared(g);
            assert forall|i: int| 0 <= i < g.len() implies g[i] == want[i] by {
                assert(game.cells@[i]@.len() == height);
                assert forall|j: int| 0 <= j < g[i].len() implies g[i][j] == want[i][j] by {
                    assert(game.cells@[i]@[j].state == zero_state::<T>());
                }
                assert(g[i] =~= want[i]);
            }
            assert(g =~= want);
        }
        Ok(game)
    }

    /// Wraps a pair of indices onto the torus.
    pub fn wrap_idx(&self, idx_x: isize, idx_y: isize) -> (r: (usize, usize))
        requires
            self.wf(),
        ensures
            r.0 == wrap(idx_x as int, self.grid().len() as int),
            r.1 == wrap(idx_y as int, self.grid()[0].len() as int),
            r.0 < self.grid().len(),
            r.1 < self.grid()[0].len(),
    {
        (wrap_index(idx_x, self.width), wrap_index(idx_y, self.height))
    }

    /// The cell that `(idx_x, idx_y)` denotes on the torus.
    pub fn cell(&self, idx_x: isize, idx_y: isize) -> (r: Option<&Cell<T>>)
        requires
            self.wf(),
        ensures
            r matches Some(c) && *c == self.grid()[wrap(idx_x as int, self.grid().len() as int)][wrap(
                idx_y as int,
                self.grid()[0].len() as int,
            )],
    {
        let (x, y) = self.wrap_idx(idx_x, idx_y);
        assert(self.grid()[x as int] == self.cells@[x as int]@);
        Some(&self.cells[x][y])
    }

    /// Whether the cell that `(idx_x, idx_y)` denotes is in `state`.
    pub fn cell_is_state(&self, idx_x: isize, idx_y: isize, state: T) -> (b: bool)
        requires
            self.wf(),
        ensures
            b == (state_at(self.grid(), idx_x as int, idx_y as int) == state),
            b == (hit(self.grid(), idx_x as int, idx_y as int, state.ordinal_spec()) == 1),
    {
        proof {
            T::ordinals_identify_states();
        }
        match self.cell(idx_x, idx_y) {
            Some(cell) => cell.is_state(state),
            None => false,
        }
    }

    /// Fills `surround` with the neighbor count vector of the cell that
    /// `(idx_x, idx_y)` denotes. The buffer is the caller's, so that one
    /// buffer serves a whole sweep.
    pub fn update_surround(&self, idx_x: isize, idx_y: isize, surround: &mut Vec<u8>)
        requires
            self.wf(),
            isize::MIN < idx_x < isize::MAX,
            isize::MIN < idx_y < isize::MAX,
        ensures
            final(surround)@ == surround_spec(self.grid(), idx_x as int, idx_y as int),
    {
        proof {
            T::ordinals_identify_states();
        }
        surround.clear();
        let n = T::num();
        let mut i: usize = 0;
        while i < n
            invariant
                self.wf(),
                isize::MIN < idx_x < isize::MAX,
                isize::MIN < idx_y < isize::MAX,
                n == T::num_spec(),
                i <= n,
                surround@.len() == i,
                forall|k: int|
                    0 <= k < i ==> #[trigger] surround@[k] == neighbor_count(
                        self.grid(),
                        idx_x as int,
                        idx_y as int,
                        k as nat,
                    ) as u8,
            decreases n - i,
        {
            let state = T::from_ordinal(i);
            let mut count: u8 = 0;
            if self.cell_is_state(idx_x - 1, idx_y - 1, state) {
                count = count + 1;
            }
            if self.cell_is_state(idx_x, idx_y - 1, state) {
                count = count + 1;
            }
            if self.cell_is_state(idx_x + 1, idx_y - 1, state) {
                count = count + 1;
            }
            if self.cell_is_state(idx_x - 1, idx_y, state) {
                count = count + 1;
            }
            if self.cell_is_state(idx_x + 1, idx_y, state) {
                count = count + 1;
            }
            if self.cell_is_state(idx_x - 1, idx_y + 1, state) {
                count = count + 1;
            }
            if self.cell_is_state(idx_x, idx_y + 1, state) {
                count = count + 1;
            }
            if self.cell_is_state(idx_x + 1, idx_y + 1, state) {
                count = count + 1;
            }
            surround.push(count);
            i = i + 1;
        }
        let ghost own_ordinal = state_at(self.grid(), idx_x as int, idx_y as int).ordinal_spec();
        let mut own: u8 = 0;
        let mut k: usize = 1;
        while k < n
            invariant
                self.wf(),
                n == T::num_spec(),
                n <= 255,
                1 <= k <= n,
                own_ordinal == state_at(self.grid(), idx_x as int, idx_y as int).ordinal_spec(),
                own_ordinal < n,
                own == (if own_ordinal < k {
                    own_ordinal
                } else {
                    0
                }),
            decreases n - k,
        {
            if self.cell_is_state(idx_x, idx_y, T::from_ordinal(k)) {
                own = own + k as u8;
            }
            k = k + 1;
        }
        surround.push(own);
        assert(surround@ =~= surround_spec(self.grid(), idx_x as int, idx_y as int));
    }

    /// The state that the rule gives the cell at column `idx_x`, row
    /// `idx_y` in the next generation: the unit of work of a sweep, which
    /// only reads the grid.
    pub fn next_cell_state(&self, idx_x: usize, idx_y: usize, surround: &mut Vec<u8>) -> (next: T)
        requires
            self.wf(),
            idx_x < self.grid().len(),
            idx_y < self.grid()[0].len(),
        ensures
            next == next_state_at(self.grid(), idx_x as int, idx_y as int),
            final(surround)@ == surround_spec(self.grid(), idx_x as int, idx_y as int),
    {
        self.update_surround(idx_x as isize, idx_y as isize, surround);
        assert(self.grid()[idx_x as int].len() == self.grid()[0].len());
        let state = self.cells[idx_x][idx_y].state;
        state.transition(surround.as_slice())
    }

    /// The states of column `idx_x` in the next generation.
    pub fn next_column(&self, idx_x: usize, surround: &mut Vec<u8>) -> (column: Vec<T>)
        requires
            self.wf(),
            idx_x < self.grid().len(),
        ensures
            column@ == next_column_spec(self.grid(), idx_x as int),
    {
        let h = self.height;
        let mut column: Vec<T> = Vec::new();
        let mut idx_y: usize = 0;
        while idx_y < h
            invariant
                self.wf(),
                idx_x < self.grid().len(),
                h == self.grid()[0].len(),
                idx_y <= h,
                column@.len() == idx_y,
                forall|y: int|
                    0 <= y < idx_y ==> #[trigger] column@[y] == next_state_at(
                        self.grid(),
                        idx_x as int,
                        y,
                    ),
            decreases h - idx_y,
        {
            let next = self.next_cell_state(idx_x, idx_y, surround);
            column.push(next);
            idx_y = idx_y + 1;
        }
        assert(column@ =~= next_column_spec(self.grid(), idx_x as int));
        column
    }

    /// The work of stripe `t` out of `workers`: every column of the stripe
    /// with its states in the next generation. It only reads the grid, so
    /// the stripes of one generation can be computed side by side.
    pub fn next_stripe(&self, t: usize, workers: usize) -> (stripe: Vec<(usize, Vec<T>)>)
        requires
            self.wf(),
            workers >= 1,
        ensures
            is_stripe(stripe@, self.grid(), t as int, workers as int),
    {
        let w = self.width;
        let mut surround: Vec<u8> = Vec::new();
        let mut stripe: Vec<(usize, Vec<T>)> = Vec::new();
        let mut idx_x: usize = t;
        assert(0 * workers == 0);
        while idx_x < w
            invariant
                self.wf(),
                workers >= 1,
                w == self.grid().len(),
                idx_x < w ==> idx_x == t + stripe@.len() * workers,
                idx_x >= w ==> t + stripe@.len() * workers >= w,
                forall|k: int|
                    0 <= k < stripe@.len() ==> {
                        &&& (#[trigger] stripe@[k]).0 == t + k * workers
                        &&& stripe@[k].0 < w
                        &&& stripe@[k].1@ == next_column_spec(self.grid(), stripe@[k].0 as int)
                    },
            decreases w - idx_x,
        {
            let ghost done = stripe@.len() as int;
            assert((done + 1) * workers == done * workers + workers) by (nonlinear_arith);
            let column = self.next_column(idx_x, &mut surround);
            stripe.push((idx_x, column));
            idx_x = if workers >= w - idx_x {
                w
            } else {
                idx_x + workers
            };
        }
        stripe
    }

    /// Replaces the states of column `idx_x` by `column`.
    pub fn set_column(&mut self, idx_x: usize, column: &Vec<T>)
        requires
            old(self).wf(),
            idx_x < old(self).grid().len(),
            column@.len() == old(self).grid()[0].len(),
        ensures
            final(self).wf(),
            final(self).grid() == with_column(old(self).grid(), idx_x as int, column@),
            final(self).same_frame(old(self)),
            final(self).mode() == old(self).mode(),
    {
        let h = self.height;
        let ghost g = self.grid();
        assert(g[idx_x as int].len() == g[0].len());
        let mut idx_y: usize = 0;
        while idx_y < h
            invariant
                old(self).wf(),
                g == old(self).grid(),
                self.only_states_differ(old(self)),
                self.mode == old(self).mode,
                idx_x < g.len(),
                h == g[0].len(),
                h == g[idx_x as int].len(),
                column@.len() == h,
                idx_y <= h,
                forall|i: int|
                    0 <= i < g.len() && i != idx_x ==> (#[trigger] self.cells@[i])@ == g[i],
                forall|j: int|
                    0 <= j < idx_y ==> (#[trigger] self.cells@[idx_x as int]@[j]).state
                        == column@[j],
            decreases h - idx_y,
        {
            self.cells[idx_x][idx_y].state = column[idx_y];
            idx_y = idx_y + 1;
        }
        proof {
            self.lemma_states_keep_wf(old(self));
            let now = self.grid();
            let want = with_column(g, idx_x as int, column@);
            assert forall|i: int| 0 <= i < now.len() implies now[i] == want[i] by {
                if i == idx_x {
                    assert forall|j: int| 0 <= j < now[i].len() implies now[i][j] == want[i][j] by {
                        assert(self.cells@[i]@[j].state == column@[j]);
                        assert(now[i][j].rect == g[i][j].rect);
                    }
                    assert(now[i] =~= want[i]);
                } else {
                    assert(self.cells@[i]@ == g[i]);
                }
            }
            assert(now =~= want);
        }
    }

    /// Column `x` of `now` has the shape and the rectangles of column `x`
    /// of `g`.
    spec fn rects_kept(now: Grid<T>, g: Grid<T>, x: int) -> bool {
        &&& now[x].len() == g[0].len()
        &&& forall|y: int| 0 <= y < g[0].len() ==> (#[trigger] now[x][y]).rect == g[x][y].rect
    }

    /// Column `x` of `now` holds the next generation of column `x` of `g`.
    spec fn column_done(now: Grid<T>, g: Grid<T>, x: int) -> bool {
        &&& now[x].len() == g[0].len()
        &&& forall|y: int|
            0 <= y < g[0].len() ==> (#[trigger] now[x][y]).state == next_state_at(g, x, y)
    }

    /// Advances the grid by one generation from the work of all stripes:
    /// `stripes[t]` is the work of stripe `t` out of `stripes.len()` on the
    /// current grid. Whatever the number of stripes, the outcome is the
    /// outcome of `next_state`.
    pub fn merge_stripes(&mut self, stripes: &Vec<Vec<(usize, Vec<T>)>>)
        requires
            old(self).wf(),
            stripes@.len() >= 1,
            forall|t: int|
                0 <= t < stripes@.len() ==> is_stripe(
                    (#[trigger] stripes@[t])@,
                    old(self).grid(),
                    t,
                    stripes@.len() as int,
                ),
        ensures
            final(self).wf(),
            final(self).grid() == stepped(old(self).grid()),
            final(self).same_frame(old(self)),
            final(self).mode() == old(self).mode(),
    {
        let n = stripes.len();
        let ghost g = self.grid();
        let ghost w = g.len() as int;
        let ghost h = g[0].len() as int;
        assert forall|x: int| 0 <= x < w implies #[trigger] Self::rects_kept(self.grid(), g, x) by {
            assert(g[x].len() == g[0].len());
        }
        let mut t: usize = 0;
        while t < n
            invariant
                old(self).wf(),
                g == old(self).grid(),
                w == g.len(),
                h == g[0].len(),
                n == stripes@.len(),
                t <= n,
                forall|t: int|
                    0 <= t < stripes@.len() ==> is_stripe(
                        (#[trigger] stripes@[t])@,
                        g,
                        t,
                        stripes@.len() as int,
                    ),
                self.wf(),
                self.same_frame(old(self)),
                self.mode() == old(self).mode(),
                self.grid().len() == w,
                forall|x: int| 0 <= x < w ==> #[trigger] Self::rects_kept(self.grid(), g, x),
                forall|x: int|
                    0 <= x < w && stripe_of(x, n as int) < t ==> #[trigger] Self::column_done(
                        self.grid(),
                        g,
                        x,
                    ),
            decreases n - t,
        {
            let stripe = &stripes[t];
            let len = stripe.len();
            let mut k: usize = 0;
            proof {
                assert(0 * n == 0);
                assert forall|x: int|
                    0 <= x < w && (stripe_of(x, n as int) < t || (stripe_of(x, n as int) == t && x
                        < t + k * n)) implies #[trigger] Self::column_done(self.grid(), g, x) by {
                    if x < t {
                        lemma_wrap_small(x, n as int);
                    }
                }
            }
            while k < len
                invariant
                    old(self).wf(),
                    g == old(self).grid(),
                    w == g.len(),
                    h == g[0].len(),
                    n >= 1,
                    t < n,
                    len == stripe@.len(),
                    k <= len,
                    is_stripe(stripe@, g, t as int, n as int),
                    self.wf(),
                    self.same_frame(old(self)),
                    self.mode() == old(self).mode(),
                    self.grid().len() == w,
                    forall|x: int| 0 <= x < w ==> #[trigger] Self::rects_kept(self.grid(), g, x),
                    forall|x: int|
                        0 <= x < w && (stripe_of(x, n as int) < t || (stripe_of(x, n as int) == t
                            && x < t + k * n)) ==> #[trigger] Self::column_done(self.grid(), g, x),
                decreases len - k,
            {
                let ghost before = self.grid();
                let idx_x = stripe[k].0;
                assert(Self::rects_kept(before, g, 0));
                assert(Self::rects_kept(before, g, idx_x as int));
                self.set_column(idx_x, &stripe[k].1);
                proof {
                    let now = self.grid();
                    assert((k + 1) * n == k * n + n) by (nonlinear_arith);
                    lemma_stripe_member(t as int, k as int, n as int);
                    assert forall|x: int| 0 <= x < w implies #[trigger] Self::rects_kept(
                        now,
                        g,
                        x,
                    ) by {
                        assert(Self::rects_kept(before, g, x));
                    }
                    assert forall|x: int|
                        0 <= x < w && (stripe_of(x, n as int) < t || (stripe_of(x, n as int) == t
                            && x < t + (k + 1) * n)) implies #[trigger] Self::column_done(
                        now,
                        g,
                        x,
                    ) by {
                        if x != idx_x {
                            if stripe_of(x, n as int) == t && x > idx_x {
                                lemma_stripe_gap(idx_x as int, x, n as int);
                            }
                            assert(Self::column_done(before, g, x));
                            assert(now[x] == before[x]);
                        }
                    }
                }
                k = k + 1;
            }
            t = t + 1;
        }
        proof {
            let now = self.grid();
            let want = stepped(g);
            assert forall|x: int| 0 <= x < now.len() implies now[x] == want[x] by {
                lemma_wrap_period(x, n as int);
                assert(Self::column_done(now, g, x));
                assert(Self::rects_kept(now, g, x));
                assert(g[x].len() == g[0].len());
                assert(now[x] =~= want[x]);
            }
            assert(now =~= want);
        }
    }

    /// The column `col` holds, in its first `upto` rows, the next
    /// generation of column `x` of `g`.
    spec fn column_stepped(col: Seq<Cell<T>>, g: Grid<T>, x: int, upto: int) -> bool {
        forall|y: int| 0 <= y < upto ==> (#[trigger] col[y]).state == next_state_at(g, x, y)
    }

    /// Nothing but the states in the second buffer differs from `before`.
    spec fn only_scratch_differs(&self, before: &Self) -> bool {
        &&& self.cells == before.cells
        &&& self.width == before.width
        &&& self.height == before.height
        &&& self.rect_width == before.rect_width
        &&& self.rect_height == before.rect_height
        &&& self.gap_x == before.gap_x
        &&& self.gap_y == before.gap_y
        &&& self.offset_x == before.offset_x
        &&& self.offset_y == before.offset_y
        &&& self.mode == before.mode
        &&& self.fields_agree()
    }

    /// Advances the grid by one generation, sweeping the columns in
    /// `workers` stripes: stripe `t` holds the columns `t`, `t + workers`,
    /// `t + 2 * workers` and so on. Every column lies in exactly one
    /// stripe, each stripe only reads the current buffer and only writes
    /// its own columns of the second buffer, and the buffers change places
    /// when all stripes are done. The outcome does not depend on `workers`.
    pub fn next_state_with(&mut self, workers: usize)
        requires
            old(self).wf(),
            workers >= 1,
        ensures
            final(self).wf(),
            final(self).grid() == stepped(old(self).grid()),
            final(self).same_frame(old(self)),
            final(self).mode() == old(self).mode(),
            forall|i: int, j: int|
                0 <= i < old(self).grid().len() && 0 <= j < old(self).grid()[0].len() ==> (
                #[trigger] final(self).grid()[i][j]).rect == old(self).grid()[i][j].rect,
    {
        let mut surround: Vec<u8> = Vec::new();
        let w = self.cells.len();
        let h = self.cells[0].len();
        let ghost g = self.grid();
        let mut t: usize = 0;
        while t < workers && t < w
            invariant
                old(self).wf(),
                self.only_scratch_differs(old(self)),
                g == old(self).grid(),
                w == g.len(),
                h == g[0].len(),
                workers >= 1,
                forall|x: int|
                    0 <= x < w && stripe_of(x, workers as int) < t ==> Self::column_stepped(
                        #[trigger] self.next_cells@[x]@,
                        g,
                        x,
                        h as int,
                    ),
            decreases w - t,
        {
            let mut idx_x: usize = t;
            proof {
                lemma_wrap_small(t as int, workers as int);
                assert forall|x: int|
                    0 <= x < w && (stripe_of(x, workers as int) < t || (stripe_of(x, workers as int) == t && x
                        < idx_x)) implies Self::column_stepped(
                    #[trigger] self.next_cells@[x]@,
                    g,
                    x,
                    h as int,
                ) by {
                    if x < t {
                        lemma_wrap_small(x, workers as int);
                    }
                }
            }
            while idx_x < w
                invariant
                    old(self).wf(),
                    self.only_scratch_differs(old(self)),
                    g == old(self).grid(),
                    w == g.len(),
                    h == g[0].len(),
                    workers >= 1,
                    t < workers,
                    t <= idx_x,
                    idx_x >= w || stripe_of(idx_x as int, workers as int) == t,
                    forall|x: int|
                        0 <= x < w && (stripe_of(x, workers as int) < t || (stripe_of(x, workers as int) == t && x
                            < idx_x)) ==> Self::column_stepped(
                            #[trigger] self.next_cells@[x]@,
                            g,
                            x,
                            h as int,
                        ),
                decreases w - idx_x,
            {
                let ghost before = self.next_cells;
                let mut idx_y: usize = 0;
                while idx_y < h
                    invariant
                        old(self).wf(),
                        self.only_scratch_differs(old(self)),
                        g == old(self).grid(),
                        w == g.len(),
                        h == g[0].len(),
                        idx_x < w,
                        idx_y <= h,
                        self.next_cells@.len() == before@.len(),
                        workers >= 1,
                        t < workers,
                        stripe_of(idx_x as int, workers as int) == t,
                        forall|x: int|
                            0 <= x < w && (stripe_of(x, workers as int) < t || (stripe_of(x, workers as int) == t
                                && x < idx_x)) ==> Self::column_stepped(
                                #[trigger] before@[x]@,
                                g,
                                x,
                                h as int,
                            ),
                        forall|x: int|
                            0 <= x < w && x != idx_x ==> #[trigger] self.next_cells@[x]
                                == before@[x],
                        Self::column_stepped(
                            self.next_cells@[idx_x as int]@,
                            g,
                            idx_x as int,
                            idx_y as int,
                        ),
                    decreases h - idx_y,
                {
                    let next = self.next_cell_state(idx_x, idx_y, &mut surround);
                    self.next_cells[idx_x][idx_y].state = next;
                    idx_y = idx_y + 1;
                }
                proof {
                    let reached = if workers >= w - idx_x {
                        w as int
                    } else {
                        idx_x + workers
                    };
                    assert forall|x: int|
                        0 <= x < w && (stripe_of(x, workers as int) < t || (stripe_of(x, workers as int) == t && x
                            < reached)) implies Self::column_stepped(
                        #[trigger] self.next_cells@[x]@,
                        g,
                        x,
                        h as int,
                    ) by {
                        if x > idx_x && stripe_of(x, workers as int) == t {
                            lemma_stripe_gap(idx_x as int, x, workers as int);
                        }
                        if x != idx_x {
                            assert(self.next_cells@[x] == before@[x]);
                        }
                    }
                    lemma_wrap_period(idx_x as int, workers as int);
                }
                idx_x = if workers >= w - idx_x {
                    w
                } else {
                    idx_x + workers
                };
            }
            t = t + 1;
        }
        proof {
            assert forall|x: int| 0 <= x < w implies Self::column_stepped(
                #[trigger] self.next_cells@[x]@,
                g,
                x,
                h as int,
            ) by {
                if t < workers {
                    lemma_wrap_small(x, workers as int);
                } else {
                    lemma_wrap_period(x, workers as int);
                }
            }
        }
        let ghost front = self.cells;
        let ghost back = self.next_cells;
        core::mem::swap(&mut self.cells, &mut self.next_cells);
        proof {
            assert(self.cells == back && self.next_cells == front);
            assert forall|i: int| 0 <= i < w implies (#[trigger] self.next_cells@[i])@.len()
                == self.cells@[0]@.len() by {
                assert(g[i].len() == g[0].len());
            }
            assert forall|i: int, j: int| 0 <= i < w && 0 <= j < h implies (
            #[trigger] self.next_cells@[i]@[j]).rect == self.cells@[i]@[j].rect by {
                assert(back@[i]@[j].rect == front@[i]@[j].rect);
            }
            assert(self.fields_agree());
            assert forall|i: int, j: int| 0 <= i < w && 0 <= j < h implies (
            #[trigger] self.grid()[i][j]).rect == g[i][j].rect by {
                assert(back@[i]@[j].rect == front@[i]@[j].rect);
            }
            assert forall|i: int, j: int| 0 <= i < w && 0 <= j < h implies (
            #[trigger] self.grid()[i][j]).rect == self.rect_of(i, j) by {
                assert(self.grid()[i][j].rect == g[i][j].rect);
                assert(g[i][j].rect == old(self).rect_of(i, j));
            }
            let now = self.grid();
            let want = stepped(g);
            assert(now.len() == want.len());
            assert forall|i: int| 0 <= i < now.len() implies now[i] == want[i] by {
                assert(g[i].len() == g[0].len());
                assert(now[i] =~= want[i]);
            }
            assert(now =~= want);
        }
    }

    /// Advances the grid by one generation, in as many stripes as the
    /// machine has logical CPUs.
    pub fn next_state(&mut self)
        requires
            old(self).wf(),
        ensures
            final(self).wf(),
            final(self).grid() == stepped(old(self).grid()),
            final(self).same_frame(old(self)),
            final(self).mode() == old(self).mode(),
            forall|i: int, j: int|
                0 <= i < old(self).grid().len() && 0 <= j < old(self).grid()[0].len() ==> (
                #[trigger] final(self).grid()[i][j]).rect == old(self).grid()[i][j].rect,
    {
        let workers = worker_count();
        self.next_state_with(workers);
    }

    /// Nothing but the states in the visible buffer differs from `before`.
    spec fn only_states_differ(&self, before: &Self) -> bool {
        &&& self.next_cells == before.next_cells
        &&& self.width == before.width
        &&& self.height == before.height
        &&& self.rect_width == before.rect_width
        &&& self.rect_height == before.rect_height
        &&& self.gap_x == before.gap_x
        &&& self.gap_y == before.gap_y
        &&& self.offset_x == before.offset_x
        &&& self.offset_y == before.offset_y
        &&& self.cells@.len() == before.cells@.len()
        &&& forall|i: int|
            0 <= i < self.cells@.len() ==> (#[trigger] self.cells@[i])@.len()
                == before.cells@[i]@.len()
        &&& forall|i: int, j: int|
            0 <= i < self.cells@.len() && 0 <= j < self.cells@[i]@.len() ==> (
            #[trigger] self.cells@[i]@[j]).rect == before.cells@[i]@[j].rect
    }

    /// A grid that differs from a well-formed one in states alone is
    /// well-formed.
    proof fn lemma_states_keep_wf(&self, before: &Self)
        requires
            before.wf(),
            self.only_states_differ(before),
        ensures
            self.wf(),
            self.same_frame(before),
            self.grid().len() == before.grid().len(),
            forall|i: int|
                0 <= i < self.grid().len() ==> (#[trigger] self.grid()[i]).len()
                    == before.grid()[0].len(),
            forall|i: int, j: int|
                0 <= i < self.grid().len() && 0 <= j < self.grid()[0].len() ==> (
                #[trigger] self.grid()[i][j]).rect == before.grid()[i][j].rect,
    {
        let g = before.grid();
        assert forall|i: int| 0 <= i < self.grid().len() implies (#[trigger] self.grid()[i]).len()
            == g[0].len() by {
            assert(self.cells@[i]@.len() == before.cells@[i]@.len());
            assert(g[i].len() == g[0].len());
        }
        assert forall|i: int, j: int|
            0 <= i < self.grid().len() && 0 <= j < self.grid()[0].len() implies (
        #[trigger] self.grid()[i][j]).rect == g[i][j].rect by {
            assert(self.grid()[i].len() == g[0].len());
            assert(g[i].len() == g[0].len());
            assert(self.cells@[i]@[j].rect == before.cells@[i]@[j].rect);
        }
        assert forall|i: int, j: int|
            0 <= i < self.cells@.len() && 0 <= j < self.cells@[0]@.len() implies (
        #[trigger] self.next_cells@[i]@[j]).rect == self.cells@[i]@[j].rect by {
            assert(self.grid()[i].len() == g[0].len());
            assert(g[i].len() == g[0].len());
            assert(before.next_cells@[i]@[j].rect == before.cells@[i]@[j].rect);
            assert(self.cells@[i]@[j].rect == before.cells@[i]@[j].rect);
        }
        assert forall|i: int, j: int|
            0 <= i < self.grid().len() && 0 <= j < self.grid()[0].len() implies (
        #[trigger] self.grid()[i][j]).rect == self.rect_of(i, j) by {
            assert(self.grid()[i][j].rect == g[i][j].rect);
            assert(g[i][j].rect == before.rect_of(i, j));
        }
    }

    /// Puts every cell in the zero-ordinal state.
    pub fn clear(&mut self)
        requires
            old(self).wf(),
        ensures
            final(self).wf(),
            final(self).grid() == cleared(old(self).grid()),
            final(self).same_frame(old(self)),
            final(self).mode() == old(self).mode(),
    {
        proof {
            T::ordinals_identify_states();
        }
        let zero = T::from_ordinal(0);
        proof {
            lemma_zero_state(zero);
        }
        let w = self.cells.len();
        let h = self.cells[0].len();
        let ghost g = self.grid();
        let mut idx_x: usize = 0;
        while idx_x < w
            invariant
                old(self).wf(),
                g == old(self).grid(),
                self.only_states_differ(old(self)),
                self.mode == old(self).mode,
                w == g.len(),
                h == g[0].len(),
                idx_x <= w,
                zero == zero_state::<T>(),
                forall|i: int, j: int|
                    0 <= i < idx_x && 0 <= j < h ==> (#[trigger] self.cells@[i]@[j]).state == zero,
            decreases w - idx_x,
        {
            assert(g[idx_x as int].len() == g[0].len());
            let mut idx_y: usize = 0;
            while idx_y < h
                invariant
                    old(self).wf(),
                    g == old(self).grid(),
                    self.only_states_differ(old(self)),
                    self.mode == old(self).mode,
                    w == g.len(),
                    h == g[0].len(),
                    h == g[idx_x as int].len(),
                    idx_x < w,
                    idx_y <= h,
                    zero == zero_state::<T>(),
                    forall|i: int, j: int|
                        0 <= i < idx_x && 0 <= j < h ==> (#[trigger] self.cells@[i]@[j]).state
                            == zero,
                    forall|j: int|
                        0 <= j < idx_y ==> (#[trigger] self.cells@[idx_x as int]@[j]).state == zero,
                decreases h - idx_y,
            {
                self.cells[idx_x][idx_y].state = zero;
                idx_y = idx_y + 1;
            }
            idx_x = idx_x + 1;
        }
        proof {
            self.lemma_states_keep_wf(old(self));
            let now = self.grid();
            let want = cleared(g);
            assert forall|i: int| 0 <= i < now.len() implies now[i] == want[i] by {
                assert(g[i].len() == g[0].len());
                assert(now[i].len() == g[0].len());
                assert forall|j: int| 0 <= j < now[i].len() implies now[i][j] == want[i][j] by {
                    assert(self.cells@[i]@[j].state == zero);
                    assert(now[i][j].rect == g[i][j].rect);
                }
                assert(now[i] =~= want[i]);
            }
            assert(now =~= want);
        }
    }

    /// The column and row of the cell under the pixel `(x, y)`, if the
    /// pixel lies on the grid.
    pub open spec fn cell_under(&self, x: int, y: int) -> Option<(int, int)> {
        let i = (x - self.origin_x()) / self.pitch();
        let j = (y - self.origin_y()) / self.pitch();
        if 0 <= i < self.grid().len() && 0 <= j < self.grid()[0].len() {
            Some((i, j))
        } else {
            None
        }
    }

    /// The state a gesture paints with when it touches a cell in `state`:
    /// the latched mode if there is one, else the state after `state` in
    /// the toggle cycle, which the gesture then latches.
    pub open spec fn paint_state(mode: Option<T>, state: T) -> T {
        match mode {
            Some(latched) => latched,
            None => state.toggle_spec(),
        }
    }

    /// Paints the cell under the pixel `(x, y)`, as one contact of a
    /// gesture. A pixel off the grid changes nothing. The first cell a
    /// gesture touches latches the paint mode; every cell touched is put
    /// in the latched state.
    pub fn toggle_state(&mut self, x: i32, y: i32) -> (affected: bool)
        requires
            old(self).wf(),
        ensures
            final(self).wf(),
            final(self).same_frame(old(self)),
            affected == old(self).cell_under(x as int, y as int).is_some(),
            match old(self).cell_under(x as int, y as int) {
                Some((i, j)) => {
                    let paint = Self::paint_state(old(self).mode(), old(self).grid()[i][j].state);
                    &&& old(self).grid()[i][j].rect.contains_spec(x as int, y as int)
                    &&& final(self).mode() == Some(paint)
                    &&& final(self).grid() == painted(old(self).grid(), i, j, paint)
                },
                None => {
                    &&& final(self).mode() == old(self).mode()
                    &&& final(self).grid() == old(self).grid()
                },
            },
    {
        let dx: i64 = x as i64 - self.offset_x as i64;
        let dy: i64 = y as i64 - self.offset_y as i64;
        proof {
            lemma_floor_cell(dx as int, self.gap_x as int);
            lemma_floor_cell(dy as int, self.gap_x as int);
        }
        if dx < 0 || dy < 0 {
            return false;
        }
        let idx_x: u64 = dx as u64 / self.gap_x as u64;
        let idx_y: u64 = dy as u64 / self.gap_y as u64;
        if idx_x >= self.width as u64 || idx_y >= self.height as u64 {
            return false;
        }
        let idx_x: usize = idx_x as usize;
        let idx_y: usize = idx_y as usize;
        let ghost g = self.grid();
        assert(g[idx_x as int].len() == g[0].len());
        assert(g[idx_x as int][idx_y as int].rect == self.rect_of(idx_x as int, idx_y as int));
        proof {
            let p = self.gap_x as int;
            let i = idx_x as int;
            let j = idx_y as int;
            let w = g.len() as int;
            let h = g[0].len() as int;
            assert(i == dx as int / p);
            assert(j == dy as int / p);
            assert(0 <= i * p <= w * p && 0 <= j * p <= h * p && i * p == p * i && j * p == p * j)
                by (nonlinear_arith)
                requires
                    0 <= i < w,
                    0 <= j < h,
                    p > 0,
            ;
            assert(g[i][j].rect.contains_spec(x as int, y as int));
        }
        if !self.cells[idx_x][idx_y].rect.contains_point(x, y) {
            return false;
        }
        let paint = match self.mode {
            Some(latched) => latched,
            None => self.cells[idx_x][idx_y].state.place_mode(),
        };
        self.mode = Some(paint);
        self.cells[idx_x][idx_y].switch(paint);
        proof {
            self.lemma_states_keep_wf(old(self));
            let now = self.grid();
            let want = painted(g, idx_x as int, idx_y as int, paint);
            assert forall|i: int| 0 <= i < now.len() implies now[i] == want[i] by {
                assert(now[i] =~= want[i]);
            }
            assert(now =~= want);
        }
        true
    }

    /// Ends the gesture in progress, if any: the paint mode is unset.
    pub fn release(&mut self)
        ensures
            final(self).mode() == None::<T>,
            final(self).grid() == old(self).grid(),
            final(self).same_frame(old(self)),
            old(self).wf() ==> final(self).wf(),
    {
        self.mode = None;
    }

    /// One pointer event: while the gesture is active the cell under the
    /// pixel is painted, and when it is not, the gesture ends.
    pub fn apply_input(&mut self, pixel_x: i32, pixel_y: i32, gesture_active: bool) -> (affected:
        bool)
        requires
            old(self).wf(),
        ensures
            final(self).wf(),
            final(self).same_frame(old(self)),
            affected == (gesture_active && old(self).cell_under(
                pixel_x as int,
                pixel_y as int,
            ).is_some()),
            !gesture_active ==> final(self).mode() == None::<T> && final(self).grid() == old(
                self,
            ).grid(),
            gesture_active ==> match old(self).cell_under(pixel_x as int, pixel_y as int) {
                Some((i, j)) => {
                    let paint = Self::paint_state(old(self).mode(), old(self).grid()[i][j].state);
                    &&& final(self).mode() == Some(paint)
                    &&& final(self).grid() == painted(old(self).grid(), i, j, paint)
                },
                None => {
                    &&& final(self).mode() == old(self).mode()
                    &&& final(self).grid() == old(self).grid()
                },
            },
    {
        if gesture_active {
            self.toggle_state(pixel_x, pixel_y)
        } else {
            self.release();
            false
        }
    }

    /// The number of columns.
    pub fn width(&self) -> (w: usize)
        ensures
            w == self.grid().len(),
    {
        self.cells.len()
    }

    /// The number of rows.
    pub fn height(&self) -> (h: usize)
        requires
            self.grid().len() >= 1,
        ensures
            h == self.grid()[0].len(),
    {
        self.cells[0].len()
    }
}

} // verus!
