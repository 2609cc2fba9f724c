//! The configuration of a run: the iteration budget and the initial map,
//! the latter read from records of text fields.

use crate::double_buffer::DoubleBuffer;
use crate::grid::{is_empty_matrix, is_first_jagged_row, rows_of, Grid, ShapeError};
use crate::model::{height, is_board, width};
use crate::timer::{fresh, TerminationTimer};
use vstd::prelude::*;

verus! {

/// The state that a text field stands for: the one-character text `1` is a
/// live cell, every other text a dead one.
pub open spec fn cell_of(field: Seq<char>) -> bool {
    field == seq!['1']
}

/// The matrix of cell states that records of text fields stand for.
pub open spec fn map_of(records: Seq<Seq<Seq<char>>>) -> Seq<Seq<bool>> {
    Seq::new(records.len(), |y: int| Seq::new(records[y].len(), |x: int| cell_of(records[y][x])))
}

/// The records of a nested vector of strings as sequences of characters.
pub open spec fn texts_of(records: Vec<Vec<String>>) -> Seq<Seq<Seq<char>>> {
    Seq::new(records@.len(), |y: int| Seq::new(records@[y]@.len(), |x: int| records@[y]@[x]@))
}

/// Reads one field of the initial map.
pub fn parse_cell(field: &str) -> (alive: bool)
    ensures
        alive == cell_of(field@),
{
    if field.unicode_len() == 1 {
        let alive = field.get_char(0) == '1';
        assert(alive ==> field@ =~= seq!['1']);
        alive
    } else {
        false
    }
}

/// Reads the initial map from its records, field by field. The records need
/// not form a rectangle.
pub fn parse_map(records: &Vec<Vec<String>>) -> (map: Vec<Vec<bool>>)
    ensures
        rows_of(map) == map_of(texts_of(*records)),
{
    let mut map: Vec<Vec<bool>> = Vec::with_capacity(records.len());
    let mut y: usize = 0;
    while y < records.len()
        invariant
            y <= records@.len(),
            map@.len() == y,
            forall|i: int| 0 <= i < y ==> (#[trigger] map@[i])@ == map_of(texts_of(*records))[i],
        decreases records@.len() - y,
    {
        let record = &records[y];
        let mut row: Vec<bool> = Vec::with_capacity(record.len());
        let mut x: usize = 0;
        while x < record.len()
            invariant
                y < records@.len(),
                *record == records@[y as int],
                x <= record@.len(),
                row@.len() == x,
                forall|i: int| 0 <= i < x ==> row@[i] == cell_of(#[trigger] record@[i]@),
            decreases record@.len() - x,
        {
            row.push(parse_cell(record[x].as_str()));
            x += 1;
        }
        assert(row@ =~= map_of(texts_of(*records))[y as int]);
        map.push(row);
        y += 1;
    }
    assert(rows_of(map) =~= map_of(texts_of(*records)));
    map
}

/// What a run needs to start: how many ticks it lasts and the board it
/// starts from.
#[derive(Debug)]
pub struct Config {
    iterations: u32,
    initial_map: Grid,
}

impl Config {
    /// The initial map is a board.
    pub open spec fn wf(&self) -> bool {
        is_board(self.spec_initial_map())
    }

    /// The iteration budget.
    pub closed spec fn spec_iterations(&self) -> nat {
        self.iterations as nat
    }

    /// The initial map.
    pub closed spec fn spec_initial_map(&self) -> Seq<Seq<bool>> {
        self.initial_map@
    }

    /// A configuration from an iteration budget and a matrix of cell
    /// states. The matrix must be a non-empty rectangle.
    pub fn new(iterations: u32, initial_map: Vec<Vec<bool>>) -> (made: Result<Config, ShapeError>)
        ensures
            made is Ok <==> is_board(rows_of(initial_map)),
            made matches Ok(config) ==> {
                &&& config.wf()
                &&& config.spec_iterations() == iterations
                &&& config.spec_initial_map() == rows_of(initial_map)
            },
            made == Err::<Config, ShapeError>(ShapeError::Empty) <==> is_empty_matrix(rows_of(initial_map)),
            made matches Err(ShapeError::Jagged { row }) ==> !is_empty_matrix(rows_of(initial_map))
                && is_first_jagged_row(rows_of(initial_map), row as int),
    {
        match Grid::new(initial_map) {
            Ok(grid) => Ok(Config { iterations, initial_map: grid }),
            Err(fault) => Err(fault),
        }
    }

    /// A configuration from an iteration budget and the records of the
    /// initial map as they were read: a field that reads `1` is a live cell,
    /// every other field a dead one. The records must form a non-empty
    /// rectangle.
    pub fn from_records(iterations: u32, records: &Vec<Vec<String>>) -> (made: Result<Config, ShapeError>)
        ensures
            made is Ok <==> is_board(map_of(texts_of(*records))),
            made matches Ok(config) ==> {
                &&& config.wf()
                &&& config.spec_iterations() == iterations
                &&& config.spec_initial_map() == map_of(texts_of(*records))
            },
            made == Err::<Config, ShapeError>(ShapeError::Empty) <==> is_empty_matrix(
                map_of(texts_of(*records)),
            ),
            made matches Err(ShapeError::Jagged { row }) ==> !is_empty_matrix(map_of(texts_of(*records)))
                && is_first_jagged_row(map_of(texts_of(*records)), row as int),
    {
        Config::new(iterations, parse_map(records))
    }

    /// The iteration budget.
    pub fn iterations(&self) -> (iterations: u32)
        ensures
            iterations == self.spec_iterations(),
    {
        self.iterations
    }

    /// The initial map.
    pub fn initial_map(&self) -> (grid: &Grid)
        ensures
            grid@ == self.spec_initial_map(),
            self.wf() ==> grid.wf(),
    {
        &self.initial_map
    }

    /// Number of columns of the initial map.
    pub fn width(&self) -> (w: usize)
        requires
            self.wf(),
        ensures
            w == width(self.spec_initial_map()),
            w > 0,
    {
        self.initial_map.width()
    }

    /// Number of rows of the initial map.
    pub fn height(&self) -> (h: usize)
        requires
            self.wf(),
        ensures
            h == height(self.spec_initial_map()),
            h > 0,
    {
        self.initial_map.height()
    }
}

/// Sets the board up for a run: both buffers hold the initial map, and the
/// first one is active.
pub fn setup_board(config: &Config) -> (board: DoubleBuffer)
    requires
        config.wf(),
    ensures
        board.wf(),
        board@ == config.spec_initial_map(),
        board.scratch() == config.spec_initial_map(),
        board.first_is_active(),
{
    DoubleBuffer::from_grid(config.initial_map().duplicate())
}

/// Sets the timer up for a run: its budget is the configured number of
/// iterations, and it has not been observed yet.
pub fn setup_timer(config: &Config) -> (timer: TerminationTimer)
    ensures
        timer.wf(),
        timer@ == fresh(config.spec_iterations()),
{
    TerminationTimer::new(config.iterations())
}

} // verus!
