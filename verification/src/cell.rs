//! The smallest unit of simulation state: one cell, alive or dead.

use vstd::prelude::*;

verus! {

/// A single cell of the grid. Copied by value; default construction yields a
/// dead cell.
#[derive(Clone, Copy, Debug, PartialEq, Eq, Structural)]
pub struct Cell {
    alive: bool,
}

impl Cell {
    /// The cell's state as seen by specifications: `true` means alive.
    pub closed spec fn spec_alive(self) -> bool {
        self.alive
    }

    /// Constructs a cell in the given state.
    pub fn new(alive: bool) -> (c: Cell)
        ensures
            c.spec_alive() == alive,
    {
        Cell { alive }
    }

    /// Pure query: is this cell alive?
    pub fn is_alive(&self) -> (r: bool)
        ensures
            r == self.spec_alive(),
    {
        self.alive
    }

    /// Flips alive and dead in place.
    pub fn toggle(&mut self)
        ensures
            final(self).spec_alive() == !old(self).spec_alive(),
    {
        self.alive = !self.alive;
    }

    /// Sets the cell dead unconditionally (idempotent).
    pub fn kill(&mut self)
        ensures
            !final(self).spec_alive(),
    {
        self.alive = false;
    }

    /// Sets the cell alive unconditionally (idempotent).
    pub fn resurrect(&mut self)
        ensures
            final(self).spec_alive(),
    {
        self.alive = true;
    }
}

impl Default for Cell {
    /// Equivalent to `Cell::new(false)`.
    fn default() -> (c: Cell)
        ensures
            !c.spec_alive(),
    {
        Cell { alive: false }
    }
}

} // verus!
