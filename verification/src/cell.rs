//! A single cell and the rule that decides its next state.

use vstd::prelude::*;

verus! {

/// How many entries of `flags` are `true`.
pub open spec fn live_count(flags: Seq<bool>) -> nat
    decreases flags.len(),
{
    if flags.len() == 0 {
        0
    } else {
        live_count(flags.drop_last()) + if flags.last() { 1nat } else { 0nat }
    }
}

/// The B3/S23 rule: a live cell stays alive with two or three live
/// neighbours, a dead cell comes to life with exactly three.
pub open spec fn survives(alive: bool, live_neighbours: nat) -> bool {
    if alive {
        live_neighbours == 2 || live_neighbours == 3
    } else {
        live_neighbours == 3
    }
}

/// The four colour channels painted for a cell: opaque white when it is
/// alive, transparent black when it is dead.
pub open spec fn pixel_of(alive: bool) -> Seq<u8> {
    if alive {
        seq![0xffu8, 0xffu8, 0xffu8, 0xffu8]
    } else {
        seq![0u8, 0u8, 0u8, 0u8]
    }
}

#[derive(Clone, Copy, Debug, PartialEq, Eq, Structural)]
pub struct Cell {
    pub is_alive: bool,
}

impl Cell {
    /// The cell that stands for every position outside the grid.
    pub fn dead_cell() -> (cell: Cell)
        ensures
            !cell.is_alive,
    {
        Cell { is_alive: false }
    }

    /// The state of this cell in the next generation, given the states of
    /// its eight neighbours in any order.
    pub fn process_next_state(&self, neighbours: [bool; 8]) -> (next: Cell)
        ensures
            next.is_alive == survives(self.is_alive, live_count(neighbours@)),
    {
        let mut n_count: usize = 0;
        let mut i: usize = 0;
        while i < 8
            invariant
                i <= 8,
                n_count <= i,
                n_count == live_count(neighbours@.take(i as int)),
            decreases 8 - i,
        {
            assert(neighbours@.take(i + 1).drop_last() =~= neighbours@.take(i as int));
            if neighbours[i] {
                n_count += 1;
            }
            i += 1;
        }
        assert(neighbours@.take(8) =~= neighbours@);
        let is_alive_next = match self.is_alive {
            true => n_count == 2 || n_count == 3,
            false => n_count == 3,
        };
        Cell { is_alive: is_alive_next }
    }

    /// The colour this cell is drawn in.
    pub fn color(&self) -> (rgba: [u8; 4])
        ensures
            rgba@ == pixel_of(self.is_alive),
    {
        if self.is_alive {
            [0xff, 0xff, 0xff, 0xff]
        } else {
            [0, 0, 0, 0]
        }
    }
}

} // verus!
