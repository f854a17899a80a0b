use game_of_life::cell::Cell;
use game_of_life::grid::{Grid, RenderError};

const ON: [u8; 4] = [0xff, 0xff, 0xff, 0xff];
const OFF: [u8; 4] = [0, 0, 0, 0];

fn grid_with(width: usize, height: usize, alive: &[bool]) -> Grid {
    let cells = alive.iter().map(|&is_alive| Cell { is_alive }).collect();
    Grid::from_cells(width, height, cells).unwrap()
}

#[test]
fn frame_of_exact_size_is_painted_cell_by_cell() {
    let alive = [true, false, false, true, true, false];
    let grid = grid_with(3, 2, &alive);
    let mut frame = vec![0x55u8; 24];
    assert_eq!(grid.draw_cell(&mut frame), Ok(()));
    for (index, pixel) in frame.chunks_exact(4).enumerate() {
        assert_eq!(pixel, if alive[index] { ON } else { OFF }, "cell {}", index);
    }
}

#[test]
fn painted_bytes_are_exact() {
    let grid = grid_with(2, 1, &[false, true]);
    let mut frame = [7u8; 8];
    assert_eq!(grid.draw_cell(&mut frame), Ok(()));
    assert_eq!(frame, [0, 0, 0, 0, 0xff, 0xff, 0xff, 0xff]);
}

#[test]
fn short_frame_is_refused_and_left_untouched() {
    let grid = grid_with(2, 2, &[true, true, true, true]);
    let mut frame = vec![0x55u8; 15];
    assert_eq!(grid.draw_cell(&mut frame), Err(RenderError::BufferTooSmall));
    assert_eq!(frame, vec![0x55u8; 15]);
    let mut nothing: [u8; 0] = [];
    assert_eq!(grid.draw_cell(&mut nothing), Err(RenderError::BufferTooSmall));
}

#[test]
fn frame_one_pixel_short_is_refused() {
    let grid = grid_with(3, 1, &[true, false, true]);
    let mut frame = vec![9u8; 8];
    assert_eq!(grid.draw_cell(&mut frame), Err(RenderError::BufferTooSmall));
    assert_eq!(frame, vec![9u8; 8]);
}

#[test]
fn bytes_past_the_last_cell_are_kept() {
    let grid = grid_with(1, 2, &[true, false]);
    let mut frame = vec![0x33u8; 11];
    assert_eq!(grid.draw_cell(&mut frame), Ok(()));
    assert_eq!(frame, vec![0xff, 0xff, 0xff, 0xff, 0, 0, 0, 0, 0x33, 0x33, 0x33]);
}

#[test]
fn empty_grid_paints_nothing() {
    let grid = grid_with(0, 5, &[]);
    let mut nothing: [u8; 0] = [];
    assert_eq!(grid.draw_cell(&mut nothing), Ok(()));
    let mut frame = [1u8, 2, 3];
    assert_eq!(grid.draw_cell(&mut frame), Ok(()));
    assert_eq!(frame, [1, 2, 3]);
}

#[test]
fn drawing_does_not_change_the_grid() {
    let alive = [true, false, true, false];
    let grid = grid_with(2, 2, &alive);
    let mut frame = [0u8; 16];
    assert_eq!(grid.draw_cell(&mut frame), Ok(()));
    assert_eq!(grid.draw_cell(&mut frame), Ok(()));
    let flags: Vec<bool> = grid.cells().iter().map(|cell| cell.is_alive).collect();
    assert_eq!(flags, alive.to_vec());
}

#[test]
fn drawing_follows_the_generations() {
    let mut grid = grid_with(3, 3, &[false, false, false, true, true, true, false, false, false]);
    let mut frame = [0u8; 36];
    assert_eq!(grid.draw_cell(&mut frame), Ok(()));
    let lit: Vec<usize> = (0..9).filter(|&cell| frame[4 * cell] == 0xff).collect();
    assert_eq!(lit, vec![3, 4, 5]);
    grid.update_cells();
    assert_eq!(grid.draw_cell(&mut frame), Ok(()));
    let lit: Vec<usize> = (0..9).filter(|&cell| frame[4 * cell] == 0xff).collect();
    assert_eq!(lit, vec![1, 4, 7]);
}
