use conway::{Grid, GridError};

fn glider() -> Vec<u8> {
    vec![0, 0, 0, 0, 0,
         0, 1, 0, 0, 0,
         0, 1, 0, 1, 0,
         0, 1, 1, 0, 0,
         0, 0, 0, 0, 0]
}

#[test]
fn test_glider() {
    let mut sim = Grid::new(5, 5).unwrap();
    let state_0 = vec![0, 0, 0, 0, 0,
                       0, 1, 0, 0, 0,
                       0, 1, 0, 1, 0,
                       0, 1, 1, 0, 0,
                       0, 0, 0, 0, 0];
    sim.eat_state(state_0).unwrap();

    let state_1 = vec![0, 0, 0, 0, 0,
                       0, 0, 1, 0, 0,
                       1, 1, 0, 0, 0,
                       0, 1, 1, 0, 0,
                       0, 0, 0, 0, 0];

    let state_2 = vec![0, 0, 0, 0, 0,
                       0, 1, 0, 0, 0,
                       1, 0, 0, 0, 0,
                       1, 1, 1, 0, 0,
                       0, 0, 0, 0, 0];

    let state_3 = vec![0, 0, 0, 0, 0,
                       0, 0, 0, 0, 0,
                       1, 0, 1, 0, 0,
                       1, 1, 0, 0, 0,
                       0, 1, 0, 0, 0];

    let state_4 = vec![0, 0, 0, 0, 0,
                       0, 0, 0, 0, 0,
                       1, 0, 0, 0, 0,
                       1, 0, 1, 0, 0,
                       1, 1, 0, 0, 0];

    sim.evolve();
    assert_eq!(*sim.state(), state_1);
    sim.evolve();
    assert_eq!(*sim.state(), state_2);
    sim.evolve();
    assert_eq!(*sim.state(), state_3);
    sim.evolve();
    assert_eq!(*sim.state(), state_4);
}

#[test]
fn test_set_state() {
    let mut sim = Grid::new(5, 5).unwrap();
    let state_0 = vec![0, 0, 0, 0, 0,
                       0, 1, 0, 0, 0,
                       0, 1, 0, 1, 0,
                       0, 1, 1, 0, 0,
                       0, 0, 0, 0, 0];
    sim.set_state(&state_0).unwrap();

    assert_eq!(*sim.state(), state_0);
}

#[test]
#[should_panic(expected = "The size of the input state is not the same as the width times height: ")]
fn test_set_state_incorrect_size() {
    let mut sim = Grid::new(5, 5).unwrap();
    let state_0 = vec![0, 0, 0, 0, 0,
                       0, 1, 0, 0, 0,
                       0, 1, 0, 1, 0,
                       0, 1, 1, 0, 0,
                       0, 0, 0, 0];
    if let Err(error) = sim.set_state(&state_0) {
        panic!("{}", error.message());
    }
}

#[test]
#[should_panic(expected = "Valid values can only be 0 or 1. Got value of ")]
fn test_set_state_invalid_state() {
    let mut sim = Grid::new(5, 5).unwrap();
    let state_0 = vec![0, 0, 0, 0, 0,
                       0, 2, 0, 0, 0,
                       0, 3, 0, 4, 0,
                       0, 5, 6, 0, 0,
                       0, 0, 0, 0, 1];
    if let Err(error) = sim.set_state(&state_0) {
        panic!("{}", error.message());
    }
}

#[test]
#[should_panic]
fn test_new_zero_size_width() {
    if let Err(error) = Grid::new(0, 5) {
        panic!("{}", error.message());
    }
}

#[test]
#[should_panic]
fn test_new_zero_size_height() {
    if let Err(error) = Grid::new(5, 0) {
        panic!("{}", error.message());
    }
}

#[test]
#[should_panic]
fn test_new_zero_size_width_and_height() {
    if let Err(error) = Grid::new(0, 0) {
        panic!("{}", error.message());
    }
}

#[test]
fn new_refuses_zero_dimensions() {
    assert_eq!(Grid::new(0, 5).err(), Some(GridError::ZeroDimension));
    assert_eq!(Grid::new(5, 0).err(), Some(GridError::ZeroDimension));
    assert_eq!(Grid::new(0, 0).err(), Some(GridError::ZeroDimension));
    assert_eq!(Grid::new(0, u32::MAX).err(), Some(GridError::ZeroDimension));
    assert!(Grid::new(1, 1).is_ok());
}

#[test]
fn new_grid_has_its_dimensions_and_only_bits() {
    let sim = Grid::new(7, 3).unwrap();
    assert_eq!(sim.width(), 7);
    assert_eq!(sim.height(), 3);
    assert_eq!(sim.step(), 0);
    assert_eq!(sim.state().len(), 21);
    assert!(sim.state().iter().all(|cell| *cell <= 1));
}

#[test]
fn new_grid_draws_both_values() {
    let sim = Grid::new(50, 50).unwrap();
    assert!(sim.state().iter().all(|cell| *cell <= 1));
    assert!(sim.state().iter().any(|cell| *cell == 0));
    assert!(sim.state().iter().any(|cell| *cell == 1));
}

#[test]
fn new_like_takes_dimensions_only() {
    let mut first = Grid::from_cells(5, 5, glider()).unwrap();
    first.evolve();
    first.evolve();
    let second = Grid::new_like(&first);
    assert_eq!(second.width(), 5);
    assert_eq!(second.height(), 5);
    assert_eq!(second.step(), 0);
    assert_eq!(second.state().len(), 25);
    assert!(second.state().iter().all(|cell| *cell <= 1));
    assert_eq!(first.step(), 2);
}

#[test]
fn new_like_draws_afresh() {
    let first = Grid::from_cells(40, 40, vec![0; 1600]).unwrap();
    let second = Grid::new_like(&first);
    assert!(second.state().iter().any(|cell| *cell == 1));
    assert!(first.state().iter().all(|cell| *cell == 0));
}

#[test]
fn reset_zeroes_step_and_keeps_dimensions() {
    let mut sim = Grid::from_cells(40, 30, vec![0; 1200]).unwrap();
    sim.evolve();
    sim.evolve();
    sim.evolve();
    assert_eq!(sim.step(), 3);
    sim.reset();
    assert_eq!(sim.step(), 0);
    assert_eq!(sim.width(), 40);
    assert_eq!(sim.height(), 30);
    assert_eq!(sim.state().len(), 1200);
    assert!(sim.state().iter().all(|cell| *cell <= 1));
    assert!(sim.state().iter().any(|cell| *cell == 1));
}

#[test]
fn from_cells_builds_exactly_what_it_is_given() {
    let sim = Grid::from_cells(5, 5, glider()).unwrap();
    assert_eq!(sim.width(), 5);
    assert_eq!(sim.height(), 5);
    assert_eq!(sim.step(), 0);
    assert_eq!(*sim.state(), glider());
}

#[test]
fn from_cells_refusals() {
    assert_eq!(Grid::from_cells(0, 5, vec![]).err(), Some(GridError::ZeroDimension));
    assert_eq!(Grid::from_cells(5, 0, vec![0, 2]).err(), Some(GridError::ZeroDimension));
    assert_eq!(
        Grid::from_cells(2, 3, vec![0, 1, 0]).err(),
        Some(GridError::SizeMismatch { expected: 6 })
    );
    assert_eq!(
        Grid::from_cells(2, 3, vec![0, 1, 0, 7, 1, 9]).err(),
        Some(GridError::InvalidCell { value: 7 })
    );
    assert_eq!(
        Grid::from_cells(2, 3, vec![0, 1, 0, 7]).err(),
        Some(GridError::SizeMismatch { expected: 6 })
    );
}

#[test]
fn set_state_round_trip_keeps_step() {
    let mut sim = Grid::from_cells(5, 5, vec![0; 25]).unwrap();
    sim.evolve();
    sim.evolve();
    assert_eq!(sim.set_state(&glider()), Ok(()));
    assert_eq!(*sim.state(), glider());
    assert_eq!(sim.step(), 2);
    assert_eq!(sim.width(), 5);
    assert_eq!(sim.height(), 5);
}

#[test]
fn eat_state_round_trip_keeps_step() {
    let mut sim = Grid::from_cells(5, 5, vec![1; 25]).unwrap();
    sim.evolve();
    assert_eq!(sim.eat_state(glider()), Ok(()));
    assert_eq!(*sim.state(), glider());
    assert_eq!(sim.step(), 1);
}

#[test]
fn set_state_wrong_length_changes_nothing() {
    let mut sim = Grid::from_cells(5, 5, glider()).unwrap();
    sim.evolve();
    let before = sim.state().clone();
    let short = vec![0u8; 24];
    let long = vec![1u8; 26];
    assert_eq!(sim.set_state(&short), Err(GridError::SizeMismatch { expected: 25 }));
    assert_eq!(sim.set_state(&long), Err(GridError::SizeMismatch { expected: 25 }));
    assert_eq!(sim.set_state(&[]), Err(GridError::SizeMismatch { expected: 25 }));
    assert_eq!(sim.eat_state(short), Err(GridError::SizeMismatch { expected: 25 }));
    assert_eq!(*sim.state(), before);
    assert_eq!(sim.step(), 1);
}

#[test]
fn set_state_invalid_value_changes_nothing() {
    let mut sim = Grid::from_cells(5, 5, glider()).unwrap();
    sim.evolve();
    let before = sim.state().clone();
    let bad = vec![0, 0, 0, 0, 0,
                   0, 2, 0, 0, 0,
                   0, 3, 0, 4, 0,
                   0, 5, 6, 0, 0,
                   0, 0, 0, 0, 1];
    assert_eq!(sim.set_state(&bad), Err(GridError::InvalidCell { value: 2 }));
    assert_eq!(sim.eat_state(bad), Err(GridError::InvalidCell { value: 2 }));
    let mut last_bad = vec![1u8; 25];
    last_bad[24] = 255;
    assert_eq!(sim.set_state(&last_bad), Err(GridError::InvalidCell { value: 255 }));
    assert_eq!(*sim.state(), before);
    assert_eq!(sim.step(), 1);
}

#[test]
fn evolve_counts_steps() {
    let mut sim = Grid::from_cells(3, 3, vec![0; 9]).unwrap();
    for expected in 1..=12u32 {
        sim.evolve();
        assert_eq!(sim.step(), expected);
        assert_eq!(*sim.state(), vec![0u8; 9]);
    }
}

#[test]
fn evolve_is_a_function_of_the_cells() {
    let mut first = Grid::from_cells(5, 5, glider()).unwrap();
    let mut second = Grid::new(5, 5).unwrap();
    second.evolve();
    second.evolve();
    second.set_state(&glider()).unwrap();
    for _ in 0..30 {
        first.evolve();
        second.evolve();
        assert_eq!(first.state(), second.state());
    }
    assert_eq!(first.step(), 30);
    assert_eq!(second.step(), 32);
}

#[test]
fn glider_returns_after_twenty_steps() {
    let mut sim = Grid::from_cells(5, 5, glider()).unwrap();
    for _ in 0..20 {
        sim.evolve();
    }
    assert_eq!(*sim.state(), glider());
}

#[test]
fn blinker_turns() {
    let flat = vec![0, 0, 0, 0, 0,
                    0, 0, 0, 0, 0,
                    0, 1, 1, 1, 0,
                    0, 0, 0, 0, 0,
                    0, 0, 0, 0, 0];
    let upright = vec![0, 0, 0, 0, 0,
                       0, 0, 1, 0, 0,
                       0, 0, 1, 0, 0,
                       0, 0, 1, 0, 0,
                       0, 0, 0, 0, 0];
    let mut sim = Grid::from_cells(5, 5, flat.clone()).unwrap();
    sim.evolve();
    assert_eq!(*sim.state(), upright);
    sim.evolve();
    assert_eq!(*sim.state(), flat);
}

#[test]
fn block_wraps_around_the_corner_and_stays() {
    let block = vec![1, 0, 0, 1,
                     0, 0, 0, 0,
                     0, 0, 0, 0,
                     1, 0, 0, 1];
    let mut sim = Grid::from_cells(4, 4, block.clone()).unwrap();
    sim.evolve();
    assert_eq!(*sim.state(), block);
}

#[test]
fn rule_on_rectangular_grid() {
    // Three in the top row of a grid six wide and four high: the middle
    // one stays, and one is born above (wrapped to the last row) and below.
    let start = vec![0, 1, 1, 1, 0, 0,
                     0, 0, 0, 0, 0, 0,
                     0, 0, 0, 0, 0, 0,
                     0, 0, 0, 0, 0, 0];
    let next = vec![0, 0, 1, 0, 0, 0,
                    0, 0, 1, 0, 0, 0,
                    0, 0, 0, 0, 0, 0,
                    0, 0, 1, 0, 0, 0];
    let mut sim = Grid::from_cells(6, 4, start).unwrap();
    sim.evolve();
    assert_eq!(*sim.state(), next);
}

#[test]
fn single_cell_grid_dies() {
    let mut sim = Grid::from_cells(1, 1, vec![1]).unwrap();
    sim.evolve();
    assert_eq!(*sim.state(), vec![0u8]);
    sim.evolve();
    assert_eq!(*sim.state(), vec![0u8]);
    assert_eq!(sim.step(), 2);
}

#[test]
fn two_by_two_grid() {
    let mut sim = Grid::from_cells(2, 2, vec![0, 1, 1, 0]).unwrap();
    sim.evolve();
    assert_eq!(*sim.state(), vec![0u8, 0, 0, 0]);
}

#[test]
fn one_column_grid_counts_offsets_as_listed() {
    let mut sim = Grid::from_cells(1, 3, vec![1, 0, 0]).unwrap();
    sim.evolve();
    assert_eq!(*sim.state(), vec![0u8, 1, 1]);
}

#[test]
fn get_cell_wraps() {
    let sim = Grid::from_cells(3, 2, vec![1, 0, 0, 0, 0, 1]).unwrap();
    assert_eq!(sim.get_cell(0, 0), 1);
    assert_eq!(sim.get_cell(1, 0), 0);
    assert_eq!(sim.get_cell(2, 1), 1);
    assert_eq!(sim.get_cell(3, 2), 1);
    assert_eq!(sim.get_cell(5, 1), 1);
    assert_eq!(sim.get_cell(5, 3), 1);
    assert_eq!(sim.get_cell(4, 3), 0);
    assert_eq!(sim.get_cell(u32::MAX, u32::MAX), sim.get_cell(u32::MAX % 3, u32::MAX % 2));
}

#[test]
fn rows_are_the_lines_of_the_buffer() {
    let sim = Grid::from_cells(3, 2, vec![1, 0, 0, 0, 1, 1]).unwrap();
    assert_eq!(sim.rows(), vec![vec![1u8, 0, 0], vec![0u8, 1, 1]]);
    let single = Grid::from_cells(1, 1, vec![1]).unwrap();
    assert_eq!(single.rows(), vec![vec![1u8]]);
}

fn assert_well_formed(sim: &Grid, width: u32, height: u32) {
    assert_eq!(sim.width(), width);
    assert_eq!(sim.height(), height);
    assert_eq!(sim.state().len(), (width * height) as usize);
    assert!(sim.state().iter().all(|cell| *cell <= 1));
}

#[test]
fn every_operation_keeps_the_grid_well_formed() {
    let mut sim = Grid::new(9, 4).unwrap();
    assert_well_formed(&sim, 9, 4);
    for _ in 0..25 {
        sim.evolve();
        assert_well_formed(&sim, 9, 4);
    }
    assert!(sim.set_state(&[0, 1, 2]).is_err());
    assert_well_formed(&sim, 9, 4);
    assert!(sim.eat_state(vec![3; 36]).is_err());
    assert_well_formed(&sim, 9, 4);
    assert!(sim.set_state(&[1; 36]).is_ok());
    assert_well_formed(&sim, 9, 4);
    sim.evolve();
    assert_well_formed(&sim, 9, 4);
    assert_eq!(*sim.state(), vec![0u8; 36]);
    sim.reset();
    assert_well_formed(&sim, 9, 4);
    let copy = Grid::new_like(&sim);
    assert_well_formed(&copy, 9, 4);
}

#[test]
fn reset_with_replaces_every_cell_and_zeroes_step() {
    let mut sim = Grid::from_cells(5, 5, glider()).unwrap();
    sim.evolve();
    sim.evolve();
    assert_eq!(sim.step(), 2);
    let mut fresh = vec![1u8; 25];
    fresh[0] = 0;
    fresh[24] = 0;
    assert_eq!(sim.reset_with(fresh.clone()), Ok(()));
    assert_eq!(*sim.state(), fresh);
    assert_eq!(sim.step(), 0);
    assert_eq!(sim.width(), 5);
    assert_eq!(sim.height(), 5);
    assert_eq!(sim.reset_with(vec![0; 25]), Ok(()));
    assert_eq!(*sim.state(), vec![0u8; 25]);
    assert_eq!(sim.step(), 0);
}

#[test]
fn reset_with_refusal_changes_nothing() {
    let mut sim = Grid::from_cells(5, 5, glider()).unwrap();
    sim.evolve();
    sim.evolve();
    let before = sim.state().clone();
    assert_eq!(sim.reset_with(vec![0; 24]), Err(GridError::SizeMismatch { expected: 25 }));
    assert_eq!(sim.reset_with(vec![]), Err(GridError::SizeMismatch { expected: 25 }));
    let mut bad = vec![0u8; 25];
    bad[7] = 3;
    bad[9] = 2;
    assert_eq!(sim.reset_with(bad), Err(GridError::InvalidCell { value: 3 }));
    assert_eq!(*sim.state(), before);
    assert_eq!(sim.step(), 2);
    assert_eq!(sim.width(), 5);
    assert_eq!(sim.height(), 5);
}

#[test]
fn new_like_owns_its_buffer() {
    let block = vec![1, 0, 0, 1,
                     0, 0, 0, 0,
                     0, 0, 0, 0,
                     1, 0, 0, 1];
    let mut first = Grid::from_cells(4, 4, block.clone()).unwrap();
    let mut second = Grid::new_like(&first);
    assert_eq!(*first.state(), block);
    second.set_state(&[0; 16]).unwrap();
    assert_eq!(*first.state(), block);
    first.set_state(&[1; 16]).unwrap();
    first.evolve();
    assert_eq!(*second.state(), vec![0u8; 16]);
    assert_eq!(second.step(), 0);
    assert_eq!(first.step(), 1);
}
