//! The mathematical model of a grid and of one generation step.

use vstd::prelude::*;
use crate::cell::{live_count, survives};

verus! {

/// A grid as a mathematical value: its dimensions and, row by row, whether
/// each cell is alive.
pub struct GridView {
    pub width: nat,
    pub height: nat,
    pub cells: Seq<bool>,
}

impl GridView {
    /// There is exactly one flag per position.
    pub open spec fn wf(self) -> bool {
        self.cells.len() == self.width * self.height
    }

    /// Whether `(row, col)` is a position of the grid.
    pub open spec fn in_bounds(self, row: int, col: int) -> bool {
        0 <= row < self.height && 0 <= col < self.width
    }

    /// The place of `(row, col)` in the row-major sequence of cells.
    pub open spec fn index_of(self, row: int, col: int) -> int {
        row * self.width + col
    }

    /// Whether the cell at `(row, col)` is alive. Every position outside the
    /// grid is dead: rows and columns are bounded separately, so a position
    /// past the end of a row never reads the start of the next one.
    pub open spec fn alive_at(self, row: int, col: int) -> bool {
        self.in_bounds(row, col) && self.cells[self.index_of(row, col)]
    }

    /// The states of the eight positions around `(row, col)`, from top-left
    /// to bottom-right.
    pub open spec fn neighbourhood(self, row: int, col: int) -> Seq<bool> {
        seq![
            self.alive_at(row - 1, col - 1),
            self.alive_at(row - 1, col),
            self.alive_at(row - 1, col + 1),
            self.alive_at(row, col - 1),
            self.alive_at(row, col + 1),
            self.alive_at(row + 1, col - 1),
            self.alive_at(row + 1, col),
            self.alive_at(row + 1, col + 1),
        ]
    }

    /// How many of the eight positions around `(row, col)` hold a live cell.
    pub open spec fn live_neighbours(self, row: int, col: int) -> nat {
        live_count(self.neighbourhood(row, col))
    }

    /// Whether the cell at `(row, col)` is alive in the next generation.
    pub open spec fn next_alive(self, row: int, col: int) -> bool {
        survives(self.alive_at(row, col), self.live_neighbours(row, col))
    }

    /// The next generation.
    pub open spec fn step(self) -> GridView {
        GridView {
            width: self.width,
            height: self.height,
            cells: Seq::new(
                self.cells.len(),
                |i: int| self.next_alive(i / (self.width as int), i % (self.width as int)),
            ),
        }
    }

    /// The grid after `generations` steps.
    pub open spec fn step_n(self, generations: nat) -> GridView
        decreases generations,
    {
        if generations == 0 {
            self
        } else {
            self.step().step_n((generations - 1) as nat)
        }
    }

    /// No cell is alive.
    pub open spec fn all_dead(self) -> bool {
        forall|i: int| 0 <= i < self.cells.len() ==> !self.cells[i]
    }
}

/// One if `flag` holds, zero otherwise.
pub open spec fn indicator(flag: bool) -> nat {
    if flag {
        1
    } else {
        0
    }
}

/// A position inside a grid of the given dimensions has its index inside
/// the row-major sequence, and the index determines the position.
pub proof fn lemma_index_of(width: nat, height: nat, row: int, col: int)
    requires
        0 <= row < height,
        0 <= col < width,
    ensures
        0 <= row * width + col < width * height,
        (row * width + col) / (width as int) == row,
        (row * width + col) % (width as int) == col,
{
    let w = width as int;
    let h = height as int;
    assert(row * w + col < w * h) by (nonlinear_arith)
        requires
            0 <= row < h,
            0 <= col < w,
    ;
    assert(0 <= row * w + col) by (nonlinear_arith)
        requires
            0 <= row,
            0 <= col,
            0 < w,
    ;
    vstd::arithmetic::div_mod::lemma_fundamental_div_mod_converse(row * w + col, w, row, col);
}

/// An index into the row-major sequence splits into a position inside the
/// grid.
pub proof fn lemma_position_of(width: nat, height: nat, index: int)
    requires
        0 <= index < width * height,
    ensures
        0 <= index / (width as int) < height,
        0 <= index % (width as int) < width,
        (index / (width as int)) * width + index % (width as int) == index,
{
    let w = width as int;
    let h = height as int;
    assert(w > 0) by (nonlinear_arith)
        requires
            0 <= index < w * h,
            0 <= w,
    ;
    vstd::arithmetic::div_mod::lemma_fundamental_div_mod(index, w);
    vstd::arithmetic::div_mod::lemma_mod_bound(index, w);
    let q = index / w;
    let r = index % w;
    assert(w * q == q * w) by (nonlinear_arith);
    assert(0 <= q < h) by (nonlinear_arith)
        requires
            q * w + r == index,
            0 <= r < w,
            0 <= index < w * h,
    ;
}

/// The count over eight flags, written out.
pub proof fn lemma_live_count_eight(flags: Seq<bool>)
    requires
        flags.len() == 8,
    ensures
        live_count(flags) == indicator(flags[0]) + indicator(flags[1]) + indicator(flags[2])
            + indicator(flags[3]) + indicator(flags[4]) + indicator(flags[5]) + indicator(
            flags[6],
        ) + indicator(flags[7]),
{
    let s7 = flags.drop_last();
    let s6 = s7.drop_last();
    let s5 = s6.drop_last();
    let s4 = s5.drop_last();
    let s3 = s4.drop_last();
    let s2 = s3.drop_last();
    let s1 = s2.drop_last();
    let s0 = s1.drop_last();
    assert(live_count(s0) == 0);
    assert(live_count(s1) == live_count(s0) + indicator(s1.last()));
    assert(live_count(s2) == live_count(s1) + indicator(s2.last()));
    assert(live_count(s3) == live_count(s2) + indicator(s3.last()));
    assert(live_count(s4) == live_count(s3) + indicator(s4.last()));
    assert(live_count(s5) == live_count(s4) + indicator(s5.last()));
    assert(live_count(s6) == live_count(s5) + indicator(s6.last()));
    assert(live_count(s7) == live_count(s6) + indicator(s7.last()));
    assert(live_count(flags) == live_count(s7) + indicator(flags.last()));
}

} // verus!
