//! The grid: two buffers of cells whose roles are swapped every generation.

use vstd::prelude::*;
use crate::cell::{pixel_of, Cell};
use crate::model::{lemma_index_of, GridView};
use crate::random::{
    half_open_right_bits, is_alive_sample, pcg32_state_after, pcg32_step, seeded_alive,
};

verus! {

/// The liveness flags of a buffer of cells, in order.
pub open spec fn alive_flags(cells: Seq<Cell>) -> Seq<bool> {
    Seq::new(cells.len(), |i: int| cells[i].is_alive)
}

/// The grid of the given dimensions whose cells are filled, in row-major
/// order, by successive draws of the generator seeded with `seed`.
pub open spec fn randomized(width: nat, height: nat, seed: (u64, u64)) -> GridView {
    GridView {
        width,
        height,
        cells: Seq::new(width * height, |i: int| seeded_alive(seed, i as nat)),
    }
}

/// The bytes painted for a generation: four channels per cell, cell after
/// cell.
pub open spec fn painted(cells: Seq<bool>) -> Seq<u8> {
    Seq::new(4 * cells.len(), |j: int| pixel_of(cells[j / 4])[j % 4])
}

/// Why a generation could not be painted.
#[derive(Clone, Copy, Debug, PartialEq, Eq, Structural)]
pub enum RenderError {
    /// The buffer has fewer than four bytes per cell.
    BufferTooSmall,
}

/// A finite grid of cells. `cells` holds the current generation in
/// row-major order; `next_step_cells` is the buffer the next generation is
/// written to before the two change places.
#[derive(Clone, Debug)]
pub struct Grid {
    width: usize,
    height: usize,
    cells: Vec<Cell>,
    next_step_cells: Vec<Cell>,
}

impl View for Grid {
    type V = GridView;

    closed spec fn view(&self) -> GridView {
        GridView {
            width: self.width as nat,
            height: self.height as nat,
            cells: alive_flags(self.cells@),
        }
    }
}

impl Grid {
    /// The liveness flags left in the scratch buffer.
    pub closed spec fn stale(&self) -> Seq<bool> {
        alive_flags(self.next_step_cells@)
    }

    /// Both buffers hold one cell per position.
    pub open spec fn wf(&self) -> bool {
        &&& self@.wf()
        &&& self.stale().len() == self@.cells.len()
    }

    /// A grid of `width` by `height` cells in which each cell starts alive
    /// with a probability of about one in ten. The cells are filled in
    /// row-major order from one generator seeded with exactly `seed` (state
    /// and stream), one draw per cell, so equal arguments give equal grids.
    /// The scratch buffer starts all dead. A dimension of zero gives an
    /// empty grid.
    pub fn get_randomized_grid(width: usize, height: usize, seed: (u64, u64)) -> (grid: Grid)
        requires
            width * height <= usize::MAX,
        ensures
            grid.wf(),
            grid@ == randomized(width as nat, height as nat, seed),
            grid.stale() == Seq::new(width as nat * height as nat, |i: int| false),
    {
        let count: usize = width * height;
        let mut state: u64 = seed.0;
        let mut cells: Vec<Cell> = Vec::new();
        let mut i: usize = 0;
        while i < count
            invariant
                i <= count,
                cells.len() == i,
                state == pcg32_state_after(seed.0, seed.1, i as nat),
                forall|j: int|
                    0 <= j < i ==> (#[trigger] cells[j]).is_alive == seeded_alive(seed, j as nat),
            decreases count - i,
        {
            let (word, next) = pcg32_step(state, seed.1);
            let bits: u32 = half_open_right_bits(word);
            cells.push(Cell { is_alive: is_alive_sample(bits) });
            state = next;
            i += 1;
        }
        let next_step_cells = vec![Cell::dead_cell(); count];
        let grid = Grid { width, height, cells, next_step_cells };
        proof {
            assert(grid@.cells =~= randomized(width as nat, height as nat, seed).cells);
            assert(grid.stale() =~= Seq::new(width as nat * height as nat, |i: int| false));
        }
        grid
    }

    /// A grid whose first generation is `cells`, row after row. There must
    /// be exactly one cell per position; otherwise no grid is made. The
    /// scratch buffer starts all dead.
    pub fn from_cells(width: usize, height: usize, cells: Vec<Cell>) -> (made: Option<Grid>)
        ensures
            made is Some <==> cells@.len() == width * height,
            made matches Some(grid) ==> {
                &&& grid.wf()
                &&& grid@ == (GridView {
                    width: width as nat,
                    height: height as nat,
                    cells: alive_flags(cells@),
                })
                &&& grid.stale() == Seq::new(cells@.len(), |i: int| false)
            },
    {
        let given: usize = cells.len();
        match width.checked_mul(height) {
            Some(count) => {
                if count == given {
                    let next_step_cells = vec![Cell::dead_cell(); count];
                    let grid = Grid { width, height, cells, next_step_cells };
                    proof {
                        assert(grid.stale() =~= Seq::new(count as nat, |i: int| false));
                    }
                    Some(grid)
                } else {
                    None
                }
            },
            None => None,
        }
    }

    /// The number of columns.
    pub fn width(&self) -> (width: usize)
        ensures
            width == self@.width,
    {
        self.width
    }

    /// The number of rows.
    pub fn height(&self) -> (height: usize)
        ensures
            height == self@.height,
    {
        self.height
    }

    /// The cells of the current generation, row after row.
    pub fn cells(&self) -> (cells: &Vec<Cell>)
        ensures
            alive_flags(cells@) == self@.cells,
    {
        &self.cells
    }

    /// Whether the cell at `(row, col)` is alive. A position outside the
    /// grid is dead.
    pub fn is_alive(&self, row: usize, col: usize) -> (alive: bool)
        requires
            self.wf(),
        ensures
            alive == self@.alive_at(row as int, col as int),
    {
        if row < self.height && col < self.width {
            proof {
                lemma_index_of(self.width as nat, self.height as nat, row as int, col as int);
                assert(self.cells.len() == self.width * self.height);
            }
            self.cells[row * self.width + col].is_alive
        } else {
            false
        }
    }

    /// The states of the eight positions around `(row, col)`, from top-left
    /// to bottom-right. The row above the first and the column left of the
    /// first do not exist; the accessor turns away what lies past the last.
    fn neighbours(&self, row: usize, col: usize) -> (around: [bool; 8])
        requires
            self.wf(),
            row < self@.height,
            col < self@.width,
        ensures
            around@ == self@.neighbourhood(row as int, col as int),
    {
        let up = row > 0;
        let left = col > 0;
        let around = [
            up && left && self.is_alive(row - 1, col - 1),
            up && self.is_alive(row - 1, col),
            up && self.is_alive(row - 1, col + 1),
            left && self.is_alive(row, col - 1),
            self.is_alive(row, col + 1),
            left && self.is_alive(row + 1, col - 1),
            self.is_alive(row + 1, col),
            self.is_alive(row + 1, col + 1),
        ];
        assert(around@ =~= self@.neighbourhood(row as int, col as int));
        around
    }

    /// Replaces the current generation by the next one. Every cell is
    /// computed from the generation the call started with and written to
    /// the scratch buffer; then the two buffers change places, so the
    /// scratch buffer is left holding the generation that was replaced.
    pub fn update_cells(&mut self)
        requires
            old(self).wf(),
        ensures
            final(self).wf(),
            final(self)@ == old(self)@.step(),
            final(self).stale() == old(self)@.cells,
    {
        let ghost before = self@;
        let mut id: usize = 0;
        let mut row: usize = 0;
        while row < self.height
            invariant
                self.wf(),
                self@ == before,
                row <= self.height,
                id == row * self.width,
                id <= self.cells.len(),
                forall|i: int|
                    0 <= i < id ==> self.stale()[i] == #[trigger] before.step().cells[i],
            decreases self.height - row,
        {
            let mut col: usize = 0;
            while col < self.width
                invariant
                    self.wf(),
                    self@ == before,
                    row < self.height,
                    col <= self.width,
                    id == row * self.width + col,
                    id <= self.cells.len(),
                    forall|i: int|
                        0 <= i < id ==> self.stale()[i] == #[trigger] before.step().cells[i],
                decreases self.width - col,
            {
                proof {
                    lemma_index_of(self.width as nat, self.height as nat, row as int, col as int);
                    assert(self.cells.len() == self.width * self.height);
                }
                let cell = self.cells[id];
                let neighbours_cell = self.neighbours(row, col);
                let next_state = cell.process_next_state(neighbours_cell);
                self.next_step_cells[id] = next_state;
                id += 1;
                col += 1;
            }
            assert(id == (row + 1) * self.width) by (nonlinear_arith)
                requires
                    id == row * self.width + self.width,
            ;
            row += 1;
        }
        proof {
            assert(id == self@.cells.len()) by (nonlinear_arith)
                requires
                    id == self.height * self.width,
                    self@.cells.len() == self.width * self.height,
            ;
            assert(self.stale() =~= before.step().cells);
        }
        std::mem::swap(&mut self.next_step_cells, &mut self.cells);
    }

    /// Paints the current generation into `frame`, four bytes per cell in
    /// row-major order. A frame with fewer than four bytes per cell is
    /// refused and left untouched; bytes past the last cell are kept.
    pub fn draw_cell(&self, frame: &mut [u8]) -> (outcome: Result<(), RenderError>)
        requires
            self.wf(),
        ensures
            final(frame)@.len() == old(frame)@.len(),
            match outcome {
                Ok(()) => {
                    &&& 4 * self@.cells.len() <= old(frame)@.len()
                    &&& final(frame)@ == painted(self@.cells) + old(frame)@.skip(
                        4 * (self@.cells.len() as int),
                    )
                },
                Err(error) => {
                    &&& error == RenderError::BufferTooSmall
                    &&& old(frame)@.len() < 4 * self@.cells.len()
                    &&& final(frame)@ == old(frame)@
                },
            },
    {
        let count: usize = self.cells.len();
        if frame.len() / 4 < count {
            return Err(RenderError::BufferTooSmall);
        }
        let ghost before = frame@;
        let ghost image = painted(self@.cells);
        let mut i: usize = 0;
        while i < count
            invariant
                i <= count,
                count == self.cells.len(),
                4 * count <= frame.len(),
                frame@.len() == before.len(),
                image == painted(self@.cells),
                forall|j: int| 0 <= j < 4 * i ==> frame@[j] == image[j],
                forall|j: int| 4 * i <= j < frame@.len() ==> frame@[j] == before[j],
            decreases count - i,
        {
            let color = self.cells[i].color();
            let at: usize = 4 * i;
            frame[at] = color[0];
            frame[at + 1] = color[1];
            frame[at + 2] = color[2];
            frame[at + 3] = color[3];
            i += 1;
        }
        assert(frame@ =~= image + before.skip(4 * (self@.cells.len() as int)));
        Ok(())
    }
}

} // verus!
