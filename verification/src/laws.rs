//! Laws of the generation step, proved over the model.
//!
//! `GridView::step` is the generation that `Grid::update_cells` installs and
//! `painted` the bytes that `Grid::draw_cell` writes, so what is proved here
//! of the model holds of every grid the library hands out.

use vstd::prelude::*;
use crate::cell::pixel_of;
use crate::grid::{painted, randomized, Grid};
use crate::model::{indicator, lemma_index_of, lemma_live_count_eight, lemma_position_of, GridView};

verus! {

/// The grid of the given dimensions in which exactly the positions that
/// satisfy `alive` hold a live cell.
pub open spec fn pattern(width: nat, height: nat, alive: spec_fn(int, int) -> bool) -> GridView {
    GridView {
        width,
        height,
        cells: Seq::new(
            width * height,
            |i: int| alive(i / (width as int), i % (width as int)),
        ),
    }
}

/// Whether `(row, col)` is one of the four cells of the block whose
/// top-left corner is `(top, left)`.
pub open spec fn in_block(top: int, left: int) -> spec_fn(int, int) -> bool {
    |row: int, col: int| top <= row <= top + 1 && left <= col <= left + 1
}

/// Whether `(row, col)` is one of the three cells of the blinker that lies
/// in row `mid_row`, centred on column `mid_col`.
pub open spec fn in_row_blinker(mid_row: int, mid_col: int) -> spec_fn(int, int) -> bool {
    |row: int, col: int| row == mid_row && mid_col - 1 <= col <= mid_col + 1
}

/// Whether `(row, col)` is one of the three cells of the blinker that
/// stands in column `mid_col`, centred on row `mid_row`.
pub open spec fn in_column_blinker(mid_row: int, mid_col: int) -> spec_fn(int, int) -> bool {
    |row: int, col: int| col == mid_col && mid_row - 1 <= row <= mid_row + 1
}

/// The live-neighbour count of a cell, written out over its eight
/// neighbours.
pub proof fn lemma_live_neighbours(grid: GridView, row: int, col: int)
    ensures
        grid.live_neighbours(row, col) == indicator(grid.alive_at(row - 1, col - 1)) + indicator(
            grid.alive_at(row - 1, col),
        ) + indicator(grid.alive_at(row - 1, col + 1)) + indicator(grid.alive_at(row, col - 1))
            + indicator(grid.alive_at(row, col + 1)) + indicator(grid.alive_at(row + 1, col - 1))
            + indicator(grid.alive_at(row + 1, col)) + indicator(grid.alive_at(row + 1, col + 1)),
{
    lemma_live_count_eight(grid.neighbourhood(row, col));
}

/// After a step the cell at a position of the grid is what the rule makes
/// of that cell and its eight neighbours; outside the grid there is still
/// no live cell.
pub proof fn lemma_step_alive_at(grid: GridView, row: int, col: int)
    requires
        grid.wf(),
    ensures
        grid.step().wf(),
        grid.step().alive_at(row, col) == (grid.in_bounds(row, col) && grid.next_alive(row, col)),
{
    if grid.in_bounds(row, col) {
        lemma_index_of(grid.width, grid.height, row, col);
    }
}

/// The four bytes painted for a cell are its colour, and they stand at four
/// times the cell's place in the row-major order.
pub proof fn lemma_painted_cell(cells: Seq<bool>, index: int)
    requires
        0 <= index < cells.len(),
    ensures
        painted(cells).len() == 4 * cells.len(),
        painted(cells).subrange(4 * index, 4 * index + 4) == pixel_of(cells[index]),
{
    assert(painted(cells).subrange(4 * index, 4 * index + 4) =~= pixel_of(cells[index]));
}

/// In a pattern grid a cell is alive exactly when it lies inside the grid
/// and the pattern holds there.
pub proof fn lemma_pattern_alive_at(
    width: nat,
    height: nat,
    alive: spec_fn(int, int) -> bool,
    row: int,
    col: int,
)
    ensures
        pattern(width, height, alive).wf(),
        pattern(width, height, alive).alive_at(row, col) == (0 <= row < height && 0 <= col < width
            && alive(row, col)),
{
    if 0 <= row < height && 0 <= col < width {
        lemma_index_of(width, height, row, col);
    }
}

/// A pattern steps to another when, at every position of the grid, the
/// rule applied to the first gives the second.
pub proof fn lemma_pattern_step(
    width: nat,
    height: nat,
    from: spec_fn(int, int) -> bool,
    to: spec_fn(int, int) -> bool,
)
    requires
        forall|row: int, col: int|
            0 <= row < height && 0 <= col < width ==> #[trigger] pattern(
                width,
                height,
                from,
            ).next_alive(row, col) == to(row, col),
    ensures
        pattern(width, height, from).step() == pattern(width, height, to),
{
    let before = pattern(width, height, from);
    let after = pattern(width, height, to);
    assert forall|i: int| 0 <= i < before.cells.len() implies before.step().cells[i]
        == after.cells[i] by {
        lemma_position_of(width, height, i);
        let row = i / (width as int);
        let col = i % (width as int);
        assert(before.next_alive(row, col) == to(row, col));
    }
    assert(before.step().cells =~= after.cells);
}

/// Equal dimensions and an equal seed give equal grids: the outcome of the
/// seeded constructor is a function of its arguments.
pub proof fn lemma_randomized_grid_is_determined(
    first: Grid,
    second: Grid,
    width: nat,
    height: nat,
    seed: (u64, u64),
)
    requires
        first@ == randomized(width, height, seed),
        second@ == randomized(width, height, seed),
    ensures
        first@ == second@,
        forall|row: int, col: int| first@.alive_at(row, col) == second@.alive_at(row, col),
{
}

/// A grid without a live cell stays as it is, however many generations
/// pass.
pub proof fn lemma_dead_grid_stays_dead(grid: GridView, generations: nat)
    requires
        grid.wf(),
        grid.all_dead(),
    ensures
        grid.step_n(generations) == grid,
    decreases generations,
{
    if generations > 0 {
        assert forall|i: int| 0 <= i < grid.cells.len() implies !grid.step().cells[i] by {
            lemma_position_of(grid.width, grid.height, i);
            let row = i / (grid.width as int);
            let col = i % (grid.width as int);
            lemma_live_neighbours(grid, row, col);
            lemma_all_dead_at(grid, row - 1, col - 1);
            lemma_all_dead_at(grid, row - 1, col);
            lemma_all_dead_at(grid, row - 1, col + 1);
            lemma_all_dead_at(grid, row, col - 1);
            lemma_all_dead_at(grid, row, col);
            lemma_all_dead_at(grid, row, col + 1);
            lemma_all_dead_at(grid, row + 1, col - 1);
            lemma_all_dead_at(grid, row + 1, col);
            lemma_all_dead_at(grid, row + 1, col + 1);
        }
        assert(grid.step().cells =~= grid.cells);
        assert(grid.step() == grid);
        lemma_dead_grid_stays_dead(grid, (generations - 1) as nat);
    }
}

/// In a grid without a live cell no position holds one.
pub proof fn lemma_all_dead_at(grid: GridView, row: int, col: int)
    requires
        grid.wf(),
        grid.all_dead(),
    ensures
        !grid.alive_at(row, col),
{
    if grid.in_bounds(row, col) {
        lemma_index_of(grid.width, grid.height, row, col);
    }
}

/// A two-by-two block of live cells in an otherwise dead grid is a still
/// life: the next generation is the same grid.
pub proof fn lemma_block_is_still_life(width: nat, height: nat, top: int, left: int)
    requires
        0 <= top,
        top + 1 < height,
        0 <= left,
        left + 1 < width,
    ensures
        pattern(width, height, in_block(top, left)).step() == pattern(
            width,
            height,
            in_block(top, left),
        ),
{
    let block = in_block(top, left);
    let grid = pattern(width, height, block);
    assert forall|row: int, col: int| 0 <= row < height && 0 <= col < width implies #[trigger]
        grid.next_alive(row, col) == block(row, col) by {
        lemma_live_neighbours(grid, row, col);
        lemma_pattern_alive_at(width, height, block, row - 1, col - 1);
        lemma_pattern_alive_at(width, height, block, row - 1, col);
        lemma_pattern_alive_at(width, height, block, row - 1, col + 1);
        lemma_pattern_alive_at(width, height, block, row, col - 1);
        lemma_pattern_alive_at(width, height, block, row, col);
        lemma_pattern_alive_at(width, height, block, row, col + 1);
        lemma_pattern_alive_at(width, height, block, row + 1, col - 1);
        lemma_pattern_alive_at(width, height, block, row + 1, col);
        lemma_pattern_alive_at(width, height, block, row + 1, col + 1);
    }
    lemma_pattern_step(width, height, block, block);
}

/// A blinker oscillates with period two. Three live cells in a row, with
/// room around them, become three live cells in a column through the same
/// centre, and those become the row again; the two differ, so one
/// generation does not bring the pattern back.
pub proof fn lemma_blinker_oscillates(width: nat, height: nat, mid_row: int, mid_col: int)
    requires
        1 <= mid_row,
        mid_row + 1 < height,
        1 <= mid_col,
        mid_col + 1 < width,
    ensures
        pattern(width, height, in_row_blinker(mid_row, mid_col)).step() == pattern(
            width,
            height,
            in_column_blinker(mid_row, mid_col),
        ),
        pattern(width, height, in_column_blinker(mid_row, mid_col)).step() == pattern(
            width,
            height,
            in_row_blinker(mid_row, mid_col),
        ),
        pattern(width, height, in_row_blinker(mid_row, mid_col)).step_n(2) == pattern(
            width,
            height,
            in_row_blinker(mid_row, mid_col),
        ),
        pattern(width, height, in_row_blinker(mid_row, mid_col)).step() != pattern(
            width,
            height,
            in_row_blinker(mid_row, mid_col),
        ),
{
    let lying = in_row_blinker(mid_row, mid_col);
    let standing = in_column_blinker(mid_row, mid_col);
    let lying_grid = pattern(width, height, lying);
    let standing_grid = pattern(width, height, standing);
    assert forall|row: int, col: int| 0 <= row < height && 0 <= col < width implies #[trigger]
        lying_grid.next_alive(row, col) == standing(row, col) by {
        lemma_live_neighbours(lying_grid, row, col);
        lemma_pattern_alive_at(width, height, lying, row - 1, col - 1);
        lemma_pattern_alive_at(width, height, lying, row - 1, col);
        lemma_pattern_alive_at(width, height, lying, row - 1, col + 1);
        lemma_pattern_alive_at(width, height, lying, row, col - 1);
        lemma_pattern_alive_at(width, height, lying, row, col);
        lemma_pattern_alive_at(width, height, lying, row, col + 1);
        lemma_pattern_alive_at(width, height, lying, row + 1, col - 1);
        lemma_pattern_alive_at(width, height, lying, row + 1, col);
        lemma_pattern_alive_at(width, height, lying, row + 1, col + 1);
    }
    lemma_pattern_step(width, height, lying, standing);
    assert forall|row: int, col: int| 0 <= row < height && 0 <= col < width implies #[trigger]
        standing_grid.next_alive(row, col) == lying(row, col) by {
        lemma_live_neighbours(standing_grid, row, col);
        lemma_pattern_alive_at(width, height, standing, row - 1, col - 1);
        lemma_pattern_alive_at(width, height, standing, row - 1, col);
        lemma_pattern_alive_at(width, height, standing, row - 1, col + 1);
        lemma_pattern_alive_at(width, height, standing, row, col - 1);
        lemma_pattern_alive_at(width, height, standing, row, col);
        lemma_pattern_alive_at(width, height, standing, row, col + 1);
        lemma_pattern_alive_at(width, height, standing, row + 1, col - 1);
        lemma_pattern_alive_at(width, height, standing, row + 1, col);
        lemma_pattern_alive_at(width, height, standing, row + 1, col + 1);
    }
    lemma_pattern_step(width, height, standing, lying);
    assert(lying_grid.step_n(2) == lying_grid) by {
        assert(lying_grid.step().step_n(1) == lying_grid.step().step().step_n(0));
    }
    assert(lying_grid.step() != lying_grid) by {
        lemma_pattern_alive_at(width, height, lying, mid_row - 1, mid_col);
        lemma_pattern_alive_at(width, height, standing, mid_row - 1, mid_col);
    }
}

/// The grid does not wrap from the start of a row to its end. Two grids
/// that differ at most in the last cell of a row give the first cell of
/// that row the same live-neighbour count. Only in a grid two columns wide
/// are the two cells real neighbours.
pub proof fn lemma_first_column_ignores_last(first: GridView, second: GridView, row: int)
    requires
        first.wf(),
        second.wf(),
        first.width == second.width,
        first.height == second.height,
        first.width != 2,
        0 <= row < first.height,
        forall|r: int, c: int|
            !(r == row && c == first.width - 1) ==> #[trigger] first.alive_at(r, c)
                == second.alive_at(r, c),
    ensures
        first.live_neighbours(row, 0) == second.live_neighbours(row, 0),
{
    lemma_live_neighbours(first, row, 0);
    lemma_live_neighbours(second, row, 0);
}

/// The grid does not wrap from the end of a row to its start. Two grids
/// that differ at most in the first cell of a row give the last cell of
/// that row the same live-neighbour count. Only in a grid two columns wide
/// are the two cells real neighbours.
pub proof fn lemma_last_column_ignores_first(first: GridView, second: GridView, row: int)
    requires
        first.wf(),
        second.wf(),
        first.width == second.width,
        first.height == second.height,
        first.width != 2,
        0 <= row < first.height,
        forall|r: int, c: int|
            !(r == row && c == 0) ==> #[trigger] first.alive_at(r, c) == second.alive_at(r, c),
    ensures
        first.live_neighbours(row, first.width - 1) == second.live_neighbours(
            row,
            first.width - 1,
        ),
{
    lemma_live_neighbours(first, row, first.width - 1);
    lemma_live_neighbours(second, row, first.width - 1);
}

} // verus!
