//! The cell-state capability and the three rule sets: Seeds, Game of Life and
//! Brian's Brain.

use vstd::prelude::*;
use crate::color::{gray, gray_spec, red, red_spec, white, white_spec, Color};

verus! {

/// Largest family size for which every ordinal fits the `u8` slots of a
/// neighbor count vector.
pub const MAX_STATES: usize = 255;

/// A closed family of cell states. Each state has an ordinal in
/// `0 .. num()`, a display color, a successor in the manual toggle cycle,
/// and the family has one transition rule over neighbor count vectors.
pub trait CellState: Sized + Copy {
    /// The ordinal of a state.
    spec fn ordinal_spec(self) -> nat;

    /// The state with the ordinal `n`, for `n` below the family size.
    spec fn from_ordinal_spec(n: nat) -> Self;

    /// How many states the family has.
    spec fn num_spec() -> nat;

    /// The color a state is drawn in.
    spec fn color_spec(self) -> Color;

    /// The next state in the manual toggle cycle.
    spec fn toggle_spec(self) -> Self;

    /// The rule: the state a cell takes in the next generation, as a
    /// function of its neighbor count vector alone.
    spec fn transition_spec(surround: Seq<u8>) -> Self;

    /// Ordinals identify states: the ordinals of the family are exactly
    /// the numbers below its size, distinct states have distinct ordinals,
    /// and the family is neither empty nor larger than `MAX_STATES`.
    proof fn ordinals_identify_states()
        ensures
            1 <= Self::num_spec() <= MAX_STATES,
            forall|s: Self| #[trigger] s.ordinal_spec() < Self::num_spec(),
            forall|a: Self, b: Self|
                #[trigger] a.ordinal_spec() == #[trigger] b.ordinal_spec() ==> a == b,
            forall|n: nat|
                n < Self::num_spec() ==> (#[trigger] Self::from_ordinal_spec(n)).ordinal_spec() == n,
    ;

    /// The color this state is drawn in.
    fn color(&self) -> (c: Color)
        ensures
            c == self.color_spec(),
    ;

    /// The next state in the manual toggle cycle.
    fn toggle(self) -> (next: Self)
        ensures
            next == self.toggle_spec(),
    ;

    /// How many states the family has.
    fn num() -> (n: usize)
        ensures
            n == Self::num_spec(),
    ;

    /// The state that the rule gives a cell with the neighbor count
    /// vector `surround`. The receiver plays no part: the cell's own state
    /// enters through the last slot of the vector.
    fn transition(self, surround: &[u8]) -> (next: Self)
        requires
            surround@.len() == Self::num_spec() + 1,
        ensures
            next == Self::transition_spec(surround@),
    ;

    /// The ordinal of this state.
    fn ordinal(self) -> (n: usize)
        ensures
            n == self.ordinal_spec(),
    ;

    /// The state with ordinal `n`. An ordinal outside the family is a
    /// defect of the caller and is excluded here.
    fn from_ordinal(n: usize) -> (s: Self)
        requires
            n < Self::num_spec(),
        ensures
            s == Self::from_ordinal_spec(n as nat),
            s.ordinal_spec() == n,
    ;

    /// The state a paint gesture latches when it starts on a cell in this
    /// state.
    fn place_mode(self) -> (mode: Self)
        ensures
            mode == self.toggle_spec(),
    {
        self.toggle()
    }

    /// The seed of this state, which is zero for every state.
    fn seed(&self) -> (s: u8)
        ensures
            s == 0,
    {
        0
    }
}

/// The zero-ordinal state of a family, which every cell of a fresh or
/// cleared grid holds.
pub open spec fn zero_state<T: CellState>() -> T {
    T::from_ordinal_spec(0)
}

/// Seeds: white is dead, gray is alive.
#[derive(Debug, Clone, Copy, PartialEq, Eq, Structural)]
pub enum Seeds {
    White,
    Gray,
}

/// Game of Life: white is dead, gray is alive.
#[derive(Debug, Clone, Copy, PartialEq, Eq, Structural)]
pub enum Gol {
    White,
    Gray,
}

/// Brian's Brain: white is at rest, gray has just fired, red is dying
/// away.
#[derive(Debug, Clone, Copy, PartialEq, Eq, Structural)]
pub enum BB {
    White,
    Red,
    Gray,
}

impl Default for Seeds {
    fn default() -> (s: Self)
        ensures
            s == Seeds::White,
    {
        Seeds::White
    }
}

impl Default for Gol {
    fn default() -> (s: Self)
        ensures
            s == Gol::White,
    {
        Gol::White
    }
}

impl Default for BB {
    fn default() -> (s: Self)
        ensures
            s == BB::White,
    {
        BB::White
    }
}

impl CellState for BB {
    open spec fn from_ordinal_spec(n: nat) -> Self {
        if n == 0 {
            BB::White
        } else if n == 1 {
            BB::Red
        } else {
            BB::Gray
        }
    }

    open spec fn ordinal_spec(self) -> nat {
        match self {
            BB::White => 0,
            BB::Red => 1,
            BB::Gray => 2,
        }
    }

    open spec fn num_spec() -> nat {
        3
    }

    open spec fn color_spec(self) -> Color {
        match self {
            BB::White => white_spec(),
            BB::Gray => gray_spec(),
            BB::Red => red_spec(),
        }
    }

    open spec fn toggle_spec(self) -> Self {
        match self {
            BB::White => BB::Gray,
            BB::Gray => BB::Red,
            BB::Red => BB::White,
        }
    }

    /// A resting cell with exactly two gray neighbors turns gray; a gray
    /// cell turns red; everything else turns white.
    open spec fn transition_spec(surround: Seq<u8>) -> Self {
        if surround.len() == 4 && surround[2] == 2 && surround[3] == 0 {
            BB::Gray
        } else if surround.len() == 4 && surround[3] == 2 {
            BB::Red
        } else {
            BB::White
        }
    }

    proof fn ordinals_identify_states() {
    }

    fn color(&self) -> (c: Color) {
        match self {
            BB::White => white(),
            BB::Gray => gray(),
            BB::Red => red(),
        }
    }

    fn toggle(self) -> (next: Self) {
        match self {
            BB::White => BB::Gray,
            BB::Gray => BB::Red,
            BB::Red => BB::White,
        }
    }

    fn num() -> (n: usize) {
        3
    }

    fn transition(self, surround: &[u8]) -> (next: Self) {
        if surround[2] == 2 && surround[3] == 0 {
            BB::Gray
        } else if surround[3] == 2 {
            BB::Red
        } else {
            BB::White
        }
    }

    fn ordinal(self) -> (n: usize) {
        match self {
            BB::White => 0,
            BB::Red => 1,
            BB::Gray => 2,
        }
    }

    fn from_ordinal(n: usize) -> (s: Self) {
        if n == 0 {
            BB::White
        } else if n == 1 {
            BB::Red
        } else {
            BB::Gray
        }
    }
}

impl CellState for Seeds {
    open spec fn from_ordinal_spec(n: nat) -> Self {
        if n == 0 {
            Seeds::White
        } else {
            Seeds::Gray
        }
    }

    open spec fn ordinal_spec(self) -> nat {
        match self {
            Seeds::White => 0,
            Seeds::Gray => 1,
        }
    }

    open spec fn num_spec() -> nat {
        2
    }

    open spec fn color_spec(self) -> Color {
        match self {
            Seeds::White => white_spec(),
            Seeds::Gray => gray_spec(),
        }
    }

    open spec fn toggle_spec(self) -> Self {
        match self {
            Seeds::White => Seeds::Gray,
            Seeds::Gray => Seeds::White,
        }
    }

    /// Alive exactly when two neighbors are alive.
    open spec fn transition_spec(surround: Seq<u8>) -> Self {
        if surround.len() == 3 && surround[1] == 2 {
            Seeds::Gray
        } else {
            Seeds::White
        }
    }

    proof fn ordinals_identify_states() {
    }

    fn color(&self) -> (c: Color) {
        match self {
            Seeds::White => white(),
            Seeds::Gray => gray(),
        }
    }

    fn toggle(self) -> (next: Self) {
        match self {
            Seeds::White => Seeds::Gray,
            Seeds::Gray => Seeds::White,
        }
    }

    fn num() -> (n: usize) {
        2
    }

    fn transition(self, surround: &[u8]) -> (next: Self) {
        if surround[1] == 2 {
            Seeds::Gray
        } else {
            Seeds::White
        }
    }

    fn ordinal(self) -> (n: usize) {
        match self {
            Seeds::White => 0,
            Seeds::Gray => 1,
        }
    }

    fn from_ordinal(n: usize) -> (s: Self) {
        if n == 0 {
            Seeds::White
        } else {
            Seeds::Gray
        }
    }
}

impl CellState for Gol {
    open spec fn from_ordinal_spec(n: nat) -> Self {
        if n == 0 {
            Gol::White
        } else {
            Gol::Gray
        }
    }

    open spec fn ordinal_spec(self) -> nat {
        match self {
            Gol::White => 0,
            Gol::Gray => 1,
        }
    }

    open spec fn num_spec() -> nat {
        2
    }

    open spec fn color_spec(self) -> Color {
        match self {
            Gol::White => white_spec(),
            Gol::Gray => gray_spec(),
        }
    }

    open spec fn toggle_spec(self) -> Self {
        match self {
            Gol::White => Gol::Gray,
            Gol::Gray => Gol::White,
        }
    }

    /// Alive when the vector is exactly six dead neighbors, two alive
    /// neighbors and an alive cell, or when three neighbors are alive.
    open spec fn transition_spec(surround: Seq<u8>) -> Self {
        if surround.len() == 3 && ((surround[0] == 6 && surround[1] == 2 && surround[2] == 1)
            || surround[1] == 3) {
            Gol::Gray
        } else {
            Gol::White
        }
    }

    proof fn ordinals_identify_states() {
    }

    fn color(&self) -> (c: Color) {
        match self {
            Gol::White => white(),
            Gol::Gray => gray(),
        }
    }

    fn toggle(self) -> (next: Self) {
        match self {
            Gol::White => Gol::Gray,
            Gol::Gray => Gol::White,
        }
    }

    fn num() -> (n: usize) {
        2
    }

    fn transition(self, surround: &[u8]) -> (next: Self) {
        if (surround[0] == 6 && surround[1] == 2 && surround[2] == 1) || surround[1] == 3 {
            Gol::Gray
        } else {
            Gol::White
        }
    }

    fn ordinal(self) -> (n: usize) {
        match self {
            Gol::White => 0,
            Gol::Gray => 1,
        }
    }

    fn from_ordinal(n: usize) -> (s: Self) {
        if n == 0 {
            Gol::White
        } else {
            Gol::Gray
        }
    }
}

} // verus!
