//! A single cell and the birth/survival rule that governs it.

use vstd::prelude::*;

verus! {

/// The state of one cell of the grid.
#[derive(Clone, Copy, Debug, PartialEq, Eq, Structural)]
pub enum Cell {
    Dead,
    Alive,
}

impl Cell {
    /// `1` for a live cell and `0` for a dead one.
    pub open spec fn population(self) -> nat {
        match self {
            Cell::Alive => 1,
            Cell::Dead => 0,
        }
    }

    /// The glyph that stands for this cell in the rendered grid.
    pub open spec fn glyph(self) -> char {
        match self {
            Cell::Dead => '\u{25fb}',
            Cell::Alive => '\u{25fc}',
        }
    }

    /// The state of a cell in the next generation, given its present state
    /// and the number of its live neighbours: a cell is alive next iff it has
    /// exactly three live neighbours, or is alive now and has exactly two.
    pub open spec fn successor(self, live_neighbours: nat) -> Cell {
        if live_neighbours == 3 || (self == Cell::Alive && live_neighbours == 2) {
            Cell::Alive
        } else {
            Cell::Dead
        }
    }

    /// Whether the cell is alive.
    pub fn is_alive(self) -> (alive: bool)
        ensures
            alive == (self == Cell::Alive),
            alive == (self.population() == 1),
    {
        match self {
            Cell::Alive => true,
            Cell::Dead => false,
        }
    }

    /// Applies the transition rule to one cell.
    pub fn next_state(self, live_neighbours: u8) -> (next: Cell)
        ensures
            next == self.successor(live_neighbours as nat),
    {
        match self {
            Cell::Alive => {
                if live_neighbours < 2 {
                    Cell::Dead
                } else if live_neighbours <= 3 {
                    Cell::Alive
                } else {
                    Cell::Dead
                }
            },
            Cell::Dead => {
                if live_neighbours == 3 {
                    Cell::Alive
                } else {
                    Cell::Dead
                }
            },
        }
    }
}

/// The transition rule, case by case: a dead cell with exactly three live
/// neighbours is born; a live cell with two or three live neighbours stays
/// alive; a live cell with fewer than two or more than three dies; and a dead
/// cell with any other count stays dead.
pub proof fn lemma_transition_rule(cell: Cell, live_neighbours: nat)
    ensures
        cell == Cell::Dead && live_neighbours == 3 ==> cell.successor(live_neighbours)
            == Cell::Alive,
        cell == Cell::Alive && (live_neighbours == 2 || live_neighbours == 3) ==> cell.successor(
            live_neighbours,
        ) == Cell::Alive,
        cell == Cell::Alive && (live_neighbours < 2 || live_neighbours > 3) ==> cell.successor(
            live_neighbours,
        ) == Cell::Dead,
        cell == Cell::Dead && live_neighbours != 3 ==> cell.successor(live_neighbours)
            == Cell::Dead,
{
}

} // verus!
