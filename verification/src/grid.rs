//! The grid: a rectangle of cell states stored row by row.

use crate::model::{height, is_board, live_neighbours, next_cell, next_generation, next_row, same_shape, width};
use crate::rule::{next_state, wrap_after, wrap_before};
use rayon::iter::{IndexedParallelIterator, IntoParallelRefMutIterator, ParallelIterator};
use vstd::prelude::*;

verus! {

/// Why a matrix cannot become a grid.
#[derive(Clone, Copy, Debug, PartialEq, Eq, Structural)]
pub enum ShapeError {
    /// The matrix has no rows, or its first row has no cells.
    Empty,
    /// Row `row` is the first that is not as long as row zero.
    Jagged { row: usize },
}

/// The rows of a nested vector as a sequence of sequences.
pub open spec fn rows_of(cells: Vec<Vec<bool>>) -> Seq<Seq<bool>> {
    Seq::new(cells@.len(), |y: int| cells@[y]@)
}

/// Whether the matrix has no cell to stand on: no rows, or an empty first row.
pub open spec fn is_empty_matrix(m: Seq<Seq<bool>>) -> bool {
    m.len() == 0 || m[0].len() == 0
}

/// Whether `row` is the first row of the matrix that is not as long as row
/// zero.
pub open spec fn is_first_jagged_row(m: Seq<Seq<bool>>, row: int) -> bool {
    &&& 0 < row < m.len()
    &&& m[row].len() != m[0].len()
    &&& forall|z: int| 0 <= z < row ==> (#[trigger] m[z]).len() == m[0].len()
}

/// A rectangle of cell states with toroidal neighbourhoods.
#[derive(Debug)]
pub struct Grid {
    cells: Vec<Vec<bool>>,
}

impl View for Grid {
    type V = Seq<Seq<bool>>;

    closed spec fn view(&self) -> Seq<Seq<bool>> {
        rows_of(self.cells)
    }
}

impl Grid {
    /// A grid is well formed when it holds a board.
    pub open spec fn wf(&self) -> bool {
        is_board(self@)
    }

    /// What well-formedness says of the stored rows.
    proof fn lemma_rows(&self)
        requires
            self.wf(),
        ensures
            self.cells@.len() == height(self@),
            self.cells@.len() > 0,
            width(self@) > 0,
            forall|y: int|
                0 <= y < self.cells@.len() ==> (#[trigger] self.cells@[y])@.len() == width(self@),
            forall|y: int| 0 <= y < self.cells@.len() ==> (#[trigger] self.cells@[y])@ == self@[y],
    {
        assert forall|y: int| 0 <= y < self.cells@.len() implies (#[trigger] self.cells@[y])@.len()
            == width(self@) by {
            assert(self@[y].len() == self@[0].len());
        }
    }

    /// Builds a grid from a matrix of cell states, row by row. The matrix
    /// must be a non-empty rectangle.
    pub fn new(rows: Vec<Vec<bool>>) -> (made: Result<Grid, ShapeError>)
        ensures
            made is Ok <==> is_board(rows_of(rows)),
            made matches Ok(grid) ==> grid.wf() && grid@ == rows_of(rows),
            made == Err::<Grid, ShapeError>(ShapeError::Empty) <==> is_empty_matrix(rows_of(rows)),
            made matches Err(ShapeError::Jagged { row }) ==> !is_empty_matrix(rows_of(rows))
                && is_first_jagged_row(rows_of(rows), row as int),
    {
        let ghost m = rows_of(rows);
        if rows.len() == 0 {
            return Err(ShapeError::Empty);
        }
        let w = rows[0].len();
        if w == 0 {
            return Err(ShapeError::Empty);
        }
        let mut y: usize = 1;
        while y < rows.len()
            invariant
                1 <= y <= rows@.len(),
                w == m[0].len(),
                w > 0,
                m == rows_of(rows),
                forall|z: int| 0 <= z < y ==> (#[trigger] m[z]).len() == w,
            decreases rows@.len() - y,
        {
            if rows[y].len() != w {
                assert(m[y as int].len() != m[0].len());
                return Err(ShapeError::Jagged { row: y });
            }
            y += 1;
        }
        Ok(Grid { cells: rows })
    }

    /// Number of columns.
    pub fn width(&self) -> (w: usize)
        requires
            self.wf(),
        ensures
            w == width(self@),
            w > 0,
    {
        proof {
            self.lemma_rows();
        }
        self.cells[0].len()
    }

    /// Number of rows.
    pub fn height(&self) -> (h: usize)
        requires
            self.wf(),
        ensures
            h == height(self@),
            h > 0,
    {
        proof {
            self.lemma_rows();
        }
        self.cells.len()
    }

    /// Reads the cell in column `x` of row `y`.
    pub fn get(&self, x: usize, y: usize) -> (alive: bool)
        requires
            self.wf(),
            x < width(self@),
            y < height(self@),
        ensures
            alive == self@[y as int][x as int],
    {
        proof {
            self.lemma_rows();
        }
        self.cells[y][x]
    }

    /// Writes the cell in column `x` of row `y`; every other cell stays.
    pub fn set(&mut self, x: usize, y: usize, value: bool)
        requires
            old(self).wf(),
            x < width(old(self)@),
            y < height(old(self)@),
        ensures
            final(self).wf(),
            final(self)@ == old(self)@.update(y as int, old(self)@[y as int].update(x as int, value)),
    {
        proof {
            self.lemma_rows();
        }
        self.cells[y][x] = value;
        assert(self@ =~~= old(self)@.update(y as int, old(self)@[y as int].update(x as int, value)));
    }

    /// Counts the live cells among the eight positions around `(x, y)`, each
    /// coordinate wrapped round the edge of the grid.
    pub fn live_neighbor_count(&self, x: usize, y: usize) -> (count: u8)
        requires
            self.wf(),
            x < width(self@),
            y < height(self@),
        ensures
            count == live_neighbours(self@, x as int, y as int),
            count <= 8,
    {
        let w = self.width();
        let h = self.height();
        let left = wrap_before(x, w);
        let right = wrap_after(x, w);
        let above = wrap_before(y, h);
        let below = wrap_after(y, h);
        proof {
            self.lemma_rows();
        }
        let mut count: u8 = 0;
        if self.cells[below][x] {
            count += 1;
        }
        if self.cells[below][right] {
            count += 1;
        }
        if self.cells[y][right] {
            count += 1;
        }
        if self.cells[above][right] {
            count += 1;
        }
        if self.cells[above][x] {
            count += 1;
        }
        if self.cells[above][left] {
            count += 1;
        }
        if self.cells[y][left] {
            count += 1;
        }
        if self.cells[below][left] {
            count += 1;
        }
        count
    }

    /// Writes row `y` of this grid's next generation into `row`, reading
    /// nothing but this grid.
    pub fn fill_next_row(&self, y: usize, row: &mut Vec<bool>)
        requires
            self.wf(),
            y < height(self@),
            old(row)@.len() == width(self@),
        ensures
            final(row)@ == next_row(self@, y as int),
    {
        let w = self.width();
        let mut x: usize = 0;
        while x < w
            invariant
                self.wf(),
                y < height(self@),
                w == width(self@),
                row@.len() == w,
                x <= w,
                forall|i: int| 0 <= i < x ==> row@[i] == next_cell(self@, i, y as int),
            decreases w - x,
        {
            proof {
                self.lemma_rows();
            }
            let count = self.live_neighbor_count(x, y);
            let alive = self.cells[y][x];
            row[x] = next_state(alive, count);
            x += 1;
        }
        assert(row@ =~= next_row(self@, y as int));
    }

    /// Overwrites `target` with this grid's next generation, one row after
    /// the other on the calling thread.
    pub fn evolve_into_sequential(&self, target: &mut Grid)
        requires
            same_shape(self@, old(target)@),
        ensures
            final(target).wf(),
            final(target)@ == next_generation(self@),
    {
        let h = self.height();
        let mut y: usize = 0;
        while y < h
            invariant
                self.wf(),
                h == height(self@),
                y <= h,
                same_shape(self@, target@),
                forall|i: int| 0 <= i < y ==> target@[i] == next_row(self@, i),
            decreases h - y,
        {
            let ghost before = target@;
            proof {
                target.lemma_rows();
            }
            self.fill_next_row(y, &mut target.cells[y]);
            assert(target@ =~= before.update(y as int, next_row(self@, y as int)));
            y += 1;
        }
        assert(target@ =~= next_generation(self@));
    }

    /// Overwrites `target` with this grid's next generation, the rows shared
    /// out among the threads of the pool.
    pub fn evolve_into(&self, target: &mut Grid)
        requires
            same_shape(self@, old(target)@),
        ensures
            final(target).wf(),
            final(target)@ == next_generation(self@),
    {
        proof {
            target.lemma_rows();
        }
        fill_rows_in_parallel(self, &mut target.cells);
        assert(target@ =~= next_generation(self@));
    }

    /// The cells of the grid, row by row, as a matrix of their own.
    pub fn to_rows(&self) -> (rows: Vec<Vec<bool>>)
        requires
            self.wf(),
        ensures
            rows_of(rows) == self@,
    {
        let h = self.height();
        let w = self.width();
        let mut rows: Vec<Vec<bool>> = Vec::with_capacity(h);
        let mut y: usize = 0;
        while y < h
            invariant
                self.wf(),
                h == height(self@),
                w == width(self@),
                y <= h,
                rows@.len() == y,
                forall|i: int| 0 <= i < y ==> (#[trigger] rows@[i])@ == self@[i],
            decreases h - y,
        {
            let mut row: Vec<bool> = Vec::with_capacity(w);
            let mut x: usize = 0;
            while x < w
                invariant
                    self.wf(),
                    y < height(self@),
                    w == width(self@),
                    x <= w,
                    row@.len() == x,
                    forall|i: int| 0 <= i < x ==> row@[i] == self@[y as int][i],
                decreases w - x,
            {
                proof {
                    self.lemma_rows();
                }
                row.push(self.cells[y][x]);
                x += 1;
            }
            assert(row@ =~= self@[y as int]);
            rows.push(row);
            y += 1;
        }
        assert(rows_of(rows) =~= self@);
        rows
    }

    /// A second grid with the same cells.
    pub fn duplicate(&self) -> (copy: Grid)
        requires
            self.wf(),
        ensures
            copy.wf(),
            copy@ == self@,
    {
        Grid { cells: self.to_rows() }
    }
}

/// Hands every row of `rows`, with its index, to rayon's
/// `par_iter_mut().enumerate().for_each(..)`, which runs the closure once on
/// each of them and returns when all have run. The closure is one call of
/// `Grid::fill_next_row`, so the contract claims of each row what that
/// function ensures of it, and that no row is added or removed.
#[verifier::external_body]
fn fill_rows_in_parallel(source: &Grid, rows: &mut Vec<Vec<bool>>)
    requires
        source.wf(),
        old(rows)@.len() == height(source@),
        forall|y: int| 0 <= y < old(rows)@.len() ==> (#[trigger] old(rows)@[y])@.len() == width(source@),
    ensures
        final(rows)@.len() == old(rows)@.len(),
        forall|y: int| 0 <= y < final(rows)@.len() ==> (#[trigger] final(rows)@[y])@ == next_row(source@, y),
{
    rows.par_iter_mut().enumerate().for_each(|(y, row)| source.fill_next_row(y, row));
}

} // verus!
