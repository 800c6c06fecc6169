//! A single cell of a grid.
use vstd::prelude::*;

verus! {

/// A cell is either dead or alive.
///
/// Besides its state, a cell holds the state that it will have in the next
/// generation. Outside of a tick the two are equal; during a tick the second
/// is filled in for every cell before any cell takes it on.
#[derive(Clone, Copy, Debug, PartialEq, Eq, Structural)]
pub struct Cell {
    /// Is the cell alive?
    pub(crate) alive: bool,
    /// Will the cell live in the next generation?
    pub(crate) lives: bool,
}

impl View for Cell {
    type V = bool;

    /// Whether the cell is alive.
    closed spec fn view(&self) -> bool {
        self.alive
    }
}

/// The view of a cell is its current state.
pub(crate) broadcast proof fn lemma_cell_view(c: Cell)
    ensures
        (#[trigger] c@) == c.alive,
{
}

/// A cell is settled when its next state is its current state.
pub(crate) broadcast proof fn lemma_cell_settled(c: Cell)
    ensures
        (#[trigger] c.is_settled()) == (c.alive == c.lives),
{
}

/// What the view and the settled state of a cell are made of, for the grid
/// that updates the flags in place.
pub(crate) broadcast group group_cell_flags {
    lemma_cell_view,
    lemma_cell_settled,
}

impl Cell {
    /// The cell is not in the middle of a tick: its next state is its state.
    pub closed spec fn is_settled(&self) -> bool {
        self.alive == self.lives
    }

    /// Returns a new living cell.
    pub fn new_alive() -> (r: Cell)
        ensures
            r@,
            r.is_settled(),
    {
        Cell { alive: true, lives: true }
    }

    /// Returns a new dead cell.
    pub fn new_dead() -> (r: Cell)
        ensures
            !r@,
            r.is_settled(),
    {
        Cell { alive: false, lives: false }
    }

    /// Is the cell alive?
    pub fn is_alive(&self) -> (r: bool)
        ensures
            r == self@,
    {
        self.alive
    }
}

} // verus!
