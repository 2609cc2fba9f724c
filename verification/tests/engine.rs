use game_of_life::double_buffer::DoubleBuffer;
use game_of_life::grid::{Grid, ShapeError};
use game_of_life::rule::{next_state, wrap_after, wrap_before};

fn board(width: usize, height: usize, alive: &[(usize, usize)]) -> Vec<Vec<bool>> {
    let mut rows = vec![vec![false; width]; height];
    for &(x, y) in alive {
        rows[y][x] = true;
    }
    rows
}

fn buffers(width: usize, height: usize, alive: &[(usize, usize)]) -> DoubleBuffer {
    DoubleBuffer::new(board(width, height, alive)).unwrap()
}

#[test]
fn rule_survival_and_birth_table() {
    let survives = [false, false, true, true, false, false, false, false, false];
    let born = [false, false, false, true, false, false, false, false, false];
    for count in 0..=8u8 {
        assert_eq!(next_state(true, count), survives[count as usize]);
        assert_eq!(next_state(false, count), born[count as usize]);
    }
    assert!(!next_state(true, 9));
    assert!(!next_state(false, 255));
}

#[test]
fn wrap_steps_round_the_edge() {
    assert_eq!(wrap_before(0, 5), 4);
    assert_eq!(wrap_before(3, 5), 2);
    assert_eq!(wrap_after(4, 5), 0);
    assert_eq!(wrap_after(0, 5), 1);
    assert_eq!(wrap_before(0, 1), 0);
    assert_eq!(wrap_after(0, 1), 0);
}

#[test]
fn grid_rejects_an_empty_matrix() {
    assert_eq!(Grid::new(Vec::new()).unwrap_err(), ShapeError::Empty);
    assert_eq!(Grid::new(vec![Vec::new()]).unwrap_err(), ShapeError::Empty);
    assert_eq!(Grid::new(vec![Vec::new(), vec![true]]).unwrap_err(), ShapeError::Empty);
}

#[test]
fn grid_rejects_jagged_rows() {
    let rows = vec![vec![true, false], vec![false, false], vec![true], vec![]];
    assert_eq!(Grid::new(rows).unwrap_err(), ShapeError::Jagged { row: 2 });
    let rows = vec![vec![true], vec![false, false]];
    assert_eq!(Grid::new(rows).unwrap_err(), ShapeError::Jagged { row: 1 });
    assert_eq!(DoubleBuffer::new(vec![vec![true], vec![]]).unwrap_err(), ShapeError::Jagged { row: 1 });
}

#[test]
fn grid_takes_its_shape_from_the_matrix() {
    let grid = Grid::new(vec![vec![true, false, false], vec![false, true, false]]).unwrap();
    assert_eq!(grid.width(), 3);
    assert_eq!(grid.height(), 2);
    assert!(grid.get(0, 0));
    assert!(grid.get(1, 1));
    assert!(!grid.get(2, 0));
    assert!(!grid.get(0, 1));
    assert_eq!(grid.to_rows(), vec![vec![true, false, false], vec![false, true, false]]);
}

#[test]
fn grid_set_changes_one_cell() {
    let mut grid = Grid::new(board(3, 2, &[(0, 0)])).unwrap();
    grid.set(2, 1, true);
    assert_eq!(grid.to_rows(), board(3, 2, &[(0, 0), (2, 1)]));
    grid.set(0, 0, false);
    assert_eq!(grid.to_rows(), board(3, 2, &[(2, 1)]));
}

#[test]
fn grid_duplicate_is_equal_and_separate() {
    let mut grid = Grid::new(board(2, 2, &[(1, 0)])).unwrap();
    let copy = grid.duplicate();
    grid.set(0, 1, true);
    assert_eq!(copy.to_rows(), board(2, 2, &[(1, 0)]));
    assert_eq!(grid.to_rows(), board(2, 2, &[(1, 0), (0, 1)]));
}

#[test]
fn corner_cell_sees_the_opposite_corner() {
    let grid = Grid::new(board(3, 3, &[(0, 0), (2, 2)])).unwrap();
    assert_eq!(grid.live_neighbor_count(0, 0), 1);
    assert_eq!(grid.live_neighbor_count(2, 2), 1);
    assert_eq!(grid.live_neighbor_count(1, 1), 2);
}

#[test]
fn corner_cell_counts_every_edge() {
    let alive = [(3, 4), (3, 0), (0, 4), (1, 4), (3, 1), (1, 1), (0, 1), (1, 0)];
    let grid = Grid::new(board(4, 5, &alive)).unwrap();
    assert_eq!(grid.live_neighbor_count(0, 0), 8);
    let grid = Grid::new(board(4, 5, &[(3, 0), (0, 4)])).unwrap();
    assert_eq!(grid.live_neighbor_count(0, 0), 2);
    assert_eq!(grid.live_neighbor_count(3, 4), 2);
}

#[test]
fn narrow_boards_count_a_position_once_per_offset() {
    let grid = Grid::new(vec![vec![true]]).unwrap();
    assert_eq!(grid.live_neighbor_count(0, 0), 8);
    let grid = Grid::new(board(3, 1, &[(0, 0)])).unwrap();
    assert_eq!(grid.live_neighbor_count(0, 0), 2);
    assert_eq!(grid.live_neighbor_count(1, 0), 3);
    let grid = Grid::new(board(2, 2, &[(0, 0)])).unwrap();
    assert_eq!(grid.live_neighbor_count(1, 1), 4);
    assert_eq!(grid.live_neighbor_count(1, 0), 2);
    assert_eq!(grid.live_neighbor_count(0, 0), 0);
}

#[test]
fn fill_next_row_writes_one_row_of_the_next_generation() {
    let grid = Grid::new(board(5, 5, &[(1, 2), (2, 2), (3, 2)])).unwrap();
    let mut row = vec![true; 5];
    grid.fill_next_row(1, &mut row);
    assert_eq!(row, vec![false, false, true, false, false]);
    grid.fill_next_row(2, &mut row);
    assert_eq!(row, vec![false, false, true, false, false]);
    grid.fill_next_row(0, &mut row);
    assert_eq!(row, vec![false; 5]);
}

#[test]
fn evolve_into_overwrites_the_target() {
    let source = Grid::new(board(5, 5, &[(1, 2), (2, 2), (3, 2)])).unwrap();
    let mut parallel = Grid::new(vec![vec![true; 5]; 5]).unwrap();
    let mut sequential = Grid::new(vec![vec![true; 5]; 5]).unwrap();
    source.evolve_into(&mut parallel);
    source.evolve_into_sequential(&mut sequential);
    let expected = board(5, 5, &[(2, 1), (2, 2), (2, 3)]);
    assert_eq!(parallel.to_rows(), expected);
    assert_eq!(sequential.to_rows(), expected);
    assert_eq!(source.to_rows(), board(5, 5, &[(1, 2), (2, 2), (3, 2)]));
}

#[test]
fn new_buffers_hold_the_initial_map_twice() {
    let map = board(4, 3, &[(1, 1), (3, 2)]);
    let buffers = DoubleBuffer::new(map.clone()).unwrap();
    assert!(buffers.is_first_board_active());
    assert_eq!(buffers.current().to_rows(), map);
    assert_eq!(buffers.previous().to_rows(), map);
}

#[test]
fn block_is_a_still_life() {
    let block = [(1, 1), (2, 1), (1, 2), (2, 2)];
    let mut buffers = buffers(4, 4, &block);
    for _ in 0..5 {
        buffers.step();
        assert_eq!(buffers.current().to_rows(), board(4, 4, &block));
    }
    let mut large = self::buffers(9, 7, &[(5, 3), (6, 3), (5, 4), (6, 4)]);
    large.step_sequential();
    assert_eq!(large.current().to_rows(), board(9, 7, &[(5, 3), (6, 3), (5, 4), (6, 4)]));
}

#[test]
fn block_across_the_edge_is_a_still_life() {
    let block = [(5, 4), (0, 4), (5, 0), (0, 0)];
    let mut buffers = buffers(6, 5, &block);
    buffers.step();
    assert_eq!(buffers.current().to_rows(), board(6, 5, &block));
    buffers.step();
    assert_eq!(buffers.current().to_rows(), board(6, 5, &block));
}

#[test]
fn blinker_oscillates_with_period_two() {
    let horizontal = board(5, 5, &[(1, 2), (2, 2), (3, 2)]);
    let vertical = board(5, 5, &[(2, 1), (2, 2), (2, 3)]);
    let mut buffers = DoubleBuffer::new(horizontal.clone()).unwrap();
    buffers.step();
    assert_eq!(buffers.current().to_rows(), vertical);
    buffers.step();
    assert_eq!(buffers.current().to_rows(), horizontal);
    buffers.step();
    assert_eq!(buffers.current().to_rows(), vertical);
    buffers.step();
    assert_eq!(buffers.current().to_rows(), horizontal);
}

#[test]
fn blinker_on_the_edge_wraps_round() {
    let mut buffers = buffers(5, 5, &[(4, 0), (0, 0), (1, 0)]);
    buffers.step();
    assert_eq!(buffers.current().to_rows(), board(5, 5, &[(0, 4), (0, 0), (0, 1)]));
    buffers.step();
    assert_eq!(buffers.current().to_rows(), board(5, 5, &[(4, 0), (0, 0), (1, 0)]));
}

#[test]
fn dead_board_stays_dead() {
    let mut buffers = buffers(6, 4, &[]);
    for _ in 0..10 {
        buffers.step();
        assert_eq!(buffers.current().to_rows(), board(6, 4, &[]));
    }
    let mut single = self::buffers(1, 1, &[]);
    single.advance(7);
    assert_eq!(single.current().to_rows(), vec![vec![false]]);
}

#[test]
fn lonely_cell_dies_after_one_step() {
    let mut buffers = buffers(5, 5, &[(2, 2)]);
    buffers.step();
    assert_eq!(buffers.current().to_rows(), board(5, 5, &[]));
    let mut small = self::buffers(2, 2, &[(0, 0)]);
    small.step();
    assert_eq!(small.current().to_rows(), board(2, 2, &[]));
    let mut corner = self::buffers(3, 3, &[(0, 0)]);
    corner.step();
    assert_eq!(corner.current().to_rows(), board(3, 3, &[]));
}

#[test]
fn cell_on_a_single_row_is_its_own_neighbour() {
    let mut buffers = buffers(3, 1, &[(0, 0)]);
    buffers.step();
    assert_eq!(buffers.current().to_rows(), vec![vec![true, true, true]]);
    buffers.step();
    assert_eq!(buffers.current().to_rows(), vec![vec![false, false, false]]);
}

#[test]
fn step_leaves_the_old_generation_in_the_other_buffer() {
    let start = board(6, 6, &[(1, 0), (2, 1), (0, 2), (1, 2), (2, 2)]);
    let mut buffers = DoubleBuffer::new(start.clone()).unwrap();
    let mut before = start;
    for round in 0..8 {
        assert_eq!(buffers.is_first_board_active(), round % 2 == 0);
        buffers.step();
        assert_eq!(buffers.previous().to_rows(), before);
        assert_ne!(buffers.current().to_rows(), before);
        before = buffers.current().to_rows();
    }
}

#[test]
fn glider_moves_one_cell_diagonally_in_four_steps() {
    let mut buffers = buffers(6, 6, &[(1, 0), (2, 1), (0, 2), (1, 2), (2, 2)]);
    buffers.step();
    assert_eq!(buffers.current().to_rows(), board(6, 6, &[(0, 1), (2, 1), (1, 2), (2, 2), (1, 3)]));
    buffers.advance(3);
    assert_eq!(buffers.current().to_rows(), board(6, 6, &[(2, 1), (3, 2), (1, 3), (2, 3), (3, 3)]));
}

#[test]
fn parallel_and_sequential_steps_agree() {
    let start = board(7, 5, &[(0, 0), (1, 0), (6, 4), (3, 2), (3, 3), (4, 2), (2, 1), (6, 0), (0, 4)]);
    let mut parallel = DoubleBuffer::new(start.clone()).unwrap();
    let mut sequential = DoubleBuffer::new(start.clone()).unwrap();
    let mut again = DoubleBuffer::new(start).unwrap();
    for _ in 0..12 {
        parallel.step();
        sequential.step_sequential();
        again.step();
        assert_eq!(parallel.current().to_rows(), sequential.current().to_rows());
        assert_eq!(parallel.current().to_rows(), again.current().to_rows());
        assert_eq!(parallel.previous().to_rows(), sequential.previous().to_rows());
    }
}

#[test]
fn advance_is_repeated_stepping() {
    let start = board(6, 6, &[(1, 0), (2, 1), (0, 2), (1, 2), (2, 2)]);
    let mut stepped = DoubleBuffer::new(start.clone()).unwrap();
    let mut advanced = DoubleBuffer::new(start.clone()).unwrap();
    let mut split = DoubleBuffer::new(start.clone()).unwrap();
    for _ in 0..9 {
        stepped.step();
    }
    advanced.advance(9);
    split.advance(4);
    split.advance(5);
    assert_eq!(advanced.current().to_rows(), stepped.current().to_rows());
    assert_eq!(advanced.previous().to_rows(), stepped.previous().to_rows());
    assert_eq!(split.current().to_rows(), stepped.current().to_rows());
    assert_eq!(advanced.is_first_board_active(), stepped.is_first_board_active());
    let mut idle = DoubleBuffer::new(start.clone()).unwrap();
    idle.advance(0);
    assert!(idle.is_first_board_active());
    assert_eq!(idle.current().to_rows(), start);
}

#[test]
fn blinker_oscillates_on_the_smallest_board_that_holds_it() {
    let horizontal = board(4, 4, &[(0, 1), (1, 1), (2, 1)]);
    let vertical = board(4, 4, &[(1, 0), (1, 1), (1, 2)]);
    let mut buffers = DoubleBuffer::new(horizontal.clone()).unwrap();
    buffers.step();
    assert_eq!(buffers.current().to_rows(), vertical);
    buffers.step_sequential();
    assert_eq!(buffers.current().to_rows(), horizontal);
}

#[test]
fn wrap_agrees_with_the_remainder() {
    for limit in 1..7usize {
        for v in 0..limit {
            assert_eq!(wrap_after(v, limit), (v + 1) % limit);
            assert_eq!(wrap_before(v, limit), (v + limit - 1) % limit);
        }
    }
}
