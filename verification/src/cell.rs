//! A cell of the grid.

use vstd::prelude::*;
use crate::automatons::CellState;
use crate::color::Color;
use crate::rect::Rect;

verus! {

/// A cell: its state and the rectangle it is drawn in.
#[derive(Debug)]
pub struct Cell<T: CellState> {
    pub state: T,
    pub rect: Rect,
}

impl<T: CellState> Cell<T> {
    /// `Some` exactly when the cell is in `state`.
    pub fn option_state(&self, state: T) -> (r: Option<()>)
        ensures
            r.is_some() == (self.state == state),
    {
        if self.is_state(state) {
            Some(())
        } else {
            None
        }
    }

    /// The color the cell is drawn in: that of its state.
    pub fn color(&self) -> (c: Color)
        ensures
            c == self.state.color_spec(),
    {
        self.state.color()
    }

    /// Puts the cell in `state`.
    pub fn switch(&mut self, state: T)
        ensures
            final(self).state == state,
            final(self).rect == old(self).rect,
    {
        self.state = state;
    }

    /// Moves the cell one step on in its family's toggle cycle.
    pub fn toggle(&mut self)
        ensures
            final(self).state == old(self).state.toggle_spec(),
            final(self).rect == old(self).rect,
    {
        self.state = self.state.toggle()
    }

    /// Whether the cell is in `state`.
    pub fn is_state(&self, state: T) -> (b: bool)
        ensures
            b == (self.state == state),
    {
        proof {
            T::ordinals_identify_states();
        }
        self.state.ordinal() == state.ordinal()
    }
}

} // verus!
