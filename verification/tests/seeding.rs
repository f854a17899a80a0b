use game_of_life::grid::Grid;
use game_of_life::random::is_alive_sample;

fn alive_indices(grid: &Grid) -> Vec<usize> {
    grid.cells().iter().enumerate().filter(|(_, cell)| cell.is_alive).map(|(index, _)| index).collect()
}

/// The draw as the generator documents it: an xorshift of the state rotated
/// by its top five bits.
fn documented_word(state: u64) -> u32 {
    let mixed = (((state >> 18) ^ state) >> 27) as u32;
    let amount = (state >> 59) as u32;
    if amount % 32 == 0 {
        mixed
    } else {
        (mixed >> amount) | (mixed << (32 - amount))
    }
}

fn documented_next_state(state: u64, inc: u64) -> u64 {
    state.wrapping_mul(6364136223846793005).wrapping_add(inc)
}

#[test]
fn same_seed_gives_the_same_grid() {
    let first = Grid::get_randomized_grid(40, 25, (1, 1));
    let second = Grid::get_randomized_grid(40, 25, (1, 1));
    assert_eq!(first.cells(), second.cells());
    assert_eq!(first.width(), second.width());
    assert_eq!(first.height(), second.height());
    for row in 0..25 {
        for col in 0..40 {
            assert_eq!(first.is_alive(row, col), second.is_alive(row, col));
        }
    }
}

#[test]
fn different_seeds_give_different_grids() {
    let first = Grid::get_randomized_grid(8, 8, (1, 1));
    let second = Grid::get_randomized_grid(8, 8, (42, 54));
    assert_ne!(first.cells(), second.cells());
}

#[test]
fn seed_one_one_gives_the_known_grid() {
    let grid = Grid::get_randomized_grid(8, 8, (1, 1));
    assert_eq!(alive_indices(&grid), vec![6, 22, 42, 46, 60]);
    assert!(grid.is_alive(0, 6));
    assert!(grid.is_alive(2, 6));
    assert!(grid.is_alive(5, 2));
    assert!(grid.is_alive(5, 6));
    assert!(grid.is_alive(7, 4));
}

#[test]
fn another_seed_gives_its_known_grid() {
    let grid = Grid::get_randomized_grid(16, 4, (42, 54));
    assert_eq!(alive_indices(&grid), vec![6, 19, 21, 29, 41, 42, 57, 61]);
}

#[test]
fn cells_are_drawn_in_row_major_order_whatever_the_shape() {
    let wide = Grid::get_randomized_grid(64, 1, (1, 1));
    let tall = Grid::get_randomized_grid(1, 64, (1, 1));
    let square = Grid::get_randomized_grid(8, 8, (1, 1));
    assert_eq!(wide.cells(), tall.cells());
    assert_eq!(wide.cells(), square.cells());
    let longer = Grid::get_randomized_grid(10, 10, (1, 1));
    assert_eq!(&longer.cells()[..64], &square.cells()[..]);
}

#[test]
fn about_one_cell_in_ten_starts_alive() {
    let grid = Grid::get_randomized_grid(500, 300, (1, 1));
    assert_eq!(grid.cells().len(), 150_000);
    assert_eq!(alive_indices(&grid).len(), 14_996);
}

#[test]
fn seeded_grid_matches_draws_made_directly() {
    let mut generator = randomize::PCG32::from((7u64, 11u64));
    let grid = Grid::get_randomized_grid(31, 17, (7, 11));
    for (index, cell) in grid.cells().iter().enumerate() {
        let sample = randomize::f32_half_open_right(generator.next_u32());
        assert_eq!(cell.is_alive, sample > 0.9, "cell {}", index);
    }
}

#[test]
fn seeded_grid_matches_the_documented_generator() {
    let seed = (0x853c_49e6_748f_ea9b_u64, 0xda3e_39cb_94b9_5bdb_u64);
    let grid = Grid::get_randomized_grid(50, 40, seed);
    let mut state = seed.0;
    for (index, cell) in grid.cells().iter().enumerate() {
        let word = documented_word(state);
        state = documented_next_state(state, seed.1);
        let sample = randomize::f32_half_open_right(word);
        assert_eq!(cell.is_alive, is_alive_sample(sample.to_bits()), "cell {}", index);
    }
}

#[test]
fn generator_draws_as_documented() {
    let mut generator = randomize::PCG32::from((3u64, 5u64));
    let mut state = 3u64;
    for _ in 0..10_000 {
        assert_eq!(generator.state, state);
        assert_eq!(generator.next_u32(), documented_word(state));
        state = documented_next_state(state, 5);
    }
}

#[test]
fn scratch_buffer_starts_dead() {
    // After one step of an all-dead generation the roles are swapped; a
    // grid made empty must then still be empty.
    let mut grid = Grid::get_randomized_grid(0, 0, (1, 1));
    grid.update_cells();
    assert!(grid.cells().is_empty());
}

#[test]
fn zero_sized_random_grids_are_empty() {
    for (width, height) in [(0, 0), (0, 9), (9, 0)] {
        let mut grid = Grid::get_randomized_grid(width, height, (1, 1));
        assert_eq!(grid.width(), width);
        assert_eq!(grid.height(), height);
        assert!(grid.cells().is_empty());
        grid.update_cells();
        assert!(grid.cells().is_empty());
        let mut frame: [u8; 0] = [];
        assert_eq!(grid.draw_cell(&mut frame), Ok(()));
    }
}

#[test]
fn sample_is_alive_strictly_above_nine_tenths() {
    let nine_tenths = 0.9f32.to_bits();
    assert_eq!(nine_tenths, 0x3f66_6666);
    assert!(!is_alive_sample(nine_tenths));
    assert!(is_alive_sample(nine_tenths + 1));
    assert!(!is_alive_sample(nine_tenths - 1));
    assert!(!is_alive_sample(0));
    assert!(!is_alive_sample(0.5f32.to_bits()));
    assert!(is_alive_sample(0.95f32.to_bits()));
}

#[test]
fn samples_compare_as_their_bit_patterns_do() {
    let mut word: u32 = 0;
    while word < 0x80_0000 {
        let sample = randomize::f32_half_open_right(word);
        assert!((0.0..1.0).contains(&sample));
        assert_eq!(is_alive_sample(sample.to_bits()), sample > 0.9, "word {}", word);
        word += 61;
    }
    for word in 7_549_700u32..7_549_800 {
        let sample = randomize::f32_half_open_right(word);
        assert_eq!(is_alive_sample(sample.to_bits()), sample > 0.9, "word {}", word);
        assert_eq!(is_alive_sample(sample.to_bits()), word > 7_549_747);
    }
}

#[test]
fn only_the_low_bits_of_a_word_decide() {
    // The high nine bits of a drawn word do not reach the sample.
    let grid = Grid::get_randomized_grid(64, 64, (9, 9));
    let mut generator = randomize::PCG32::from((9u64, 9u64));
    for cell in grid.cells() {
        let word = generator.next_u32();
        assert_eq!(cell.is_alive, (word & 0x7f_ffff) > 7_549_747);
    }
}
