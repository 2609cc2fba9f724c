//! The double-buffer controller: two grids of one shape, one of them
//! authoritative, the other the scratch space of the next step.

use crate::grid::{is_empty_matrix, is_first_jagged_row, rows_of, Grid, ShapeError};
use crate::model::{generations, is_board, lemma_next_generation_shape, next_generation, same_shape};
use vstd::prelude::*;

verus! {

/// Two grids and the flag that says which of them is current.
#[derive(Debug)]
pub struct DoubleBuffer {
    buffer_a: Grid,
    buffer_b: Grid,
    active_is_a: bool,
}

impl View for DoubleBuffer {
    type V = Seq<Seq<bool>>;

    /// The board in the active buffer.
    closed spec fn view(&self) -> Seq<Seq<bool>> {
        if self.active_is_a {
            self.buffer_a@
        } else {
            self.buffer_b@
        }
    }
}

impl DoubleBuffer {
    /// The board in the buffer that is not active.
    pub closed spec fn scratch(&self) -> Seq<Seq<bool>> {
        if self.active_is_a {
            self.buffer_b@
        } else {
            self.buffer_a@
        }
    }

    /// Whether the first of the two buffers is the active one.
    pub closed spec fn first_is_active(&self) -> bool {
        self.active_is_a
    }

    /// Both buffers hold boards of one shape.
    pub open spec fn wf(&self) -> bool {
        same_shape(self@, self.scratch())
    }

    /// Seeds both buffers with the initial map and makes the first one
    /// active. The map must be a non-empty rectangle.
    pub fn new(initial_map: Vec<Vec<bool>>) -> (made: Result<DoubleBuffer, ShapeError>)
        ensures
            made is Ok <==> is_board(rows_of(initial_map)),
            made matches Ok(buffers) ==> {
                &&& buffers.wf()
                &&& buffers@ == rows_of(initial_map)
                &&& buffers.scratch() == rows_of(initial_map)
                &&& buffers.first_is_active()
            },
            made == Err::<DoubleBuffer, ShapeError>(ShapeError::Empty) <==> is_empty_matrix(
                rows_of(initial_map),
            ),
            made matches Err(ShapeError::Jagged { row }) ==> !is_empty_matrix(rows_of(initial_map))
                && is_first_jagged_row(rows_of(initial_map), row as int),
    {
        match Grid::new(initial_map) {
            Ok(grid) => Ok(DoubleBuffer::from_grid(grid)),
            Err(fault) => Err(fault),
        }
    }

    /// Seeds both buffers with the cells of `grid` and makes the first one
    /// active.
    pub fn from_grid(grid: Grid) -> (buffers: DoubleBuffer)
        requires
            grid.wf(),
        ensures
            buffers.wf(),
            buffers@ == grid@,
            buffers.scratch() == grid@,
            buffers.first_is_active(),
    {
        let second = grid.duplicate();
        DoubleBuffer { buffer_a: grid, buffer_b: second, active_is_a: true }
    }

    /// The active grid, for readers between two steps.
    pub fn current(&self) -> (grid: &Grid)
        requires
            self.wf(),
        ensures
            grid.wf(),
            grid@ == self@,
    {
        if self.active_is_a {
            &self.buffer_a
        } else {
            &self.buffer_b
        }
    }

    /// The grid that is not active: after a step, the generation before the
    /// current one.
    pub fn previous(&self) -> (grid: &Grid)
        requires
            self.wf(),
        ensures
            grid.wf(),
            grid@ == self.scratch(),
    {
        if self.active_is_a {
            &self.buffer_b
        } else {
            &self.buffer_a
        }
    }

    /// Whether the first of the two buffers is the active one.
    pub fn is_first_board_active(&self) -> (first: bool)
        ensures
            first == self.first_is_active(),
    {
        self.active_is_a
    }

    /// Advances the simulation by one generation. Every cell of the scratch
    /// buffer is computed from the active buffer alone, the rows shared out
    /// among the threads of the pool; then the two buffers change roles. The
    /// buffer that was active keeps its cells.
    pub fn step(&mut self)
        requires
            old(self).wf(),
        ensures
            final(self).wf(),
            final(self)@ == next_generation(old(self)@),
            final(self).scratch() == old(self)@,
            final(self).first_is_active() == !old(self).first_is_active(),
    {
        if self.active_is_a {
            self.buffer_a.evolve_into(&mut self.buffer_b);
        } else {
            self.buffer_b.evolve_into(&mut self.buffer_a);
        }
        self.active_is_a = !self.active_is_a;
        proof {
            lemma_next_generation_shape(old(self)@);
        }
    }

    /// Advances the simulation by one generation on the calling thread. The
    /// result is that of `step`.
    pub fn step_sequential(&mut self)
        requires
            old(self).wf(),
        ensures
            final(self).wf(),
            final(self)@ == next_generation(old(self)@),
            final(self).scratch() == old(self)@,
            final(self).first_is_active() == !old(self).first_is_active(),
    {
        if self.active_is_a {
            self.buffer_a.evolve_into_sequential(&mut self.buffer_b);
        } else {
            self.buffer_b.evolve_into_sequential(&mut self.buffer_a);
        }
        self.active_is_a = !self.active_is_a;
        proof {
            lemma_next_generation_shape(old(self)@);
        }
    }

    /// Advances the simulation by `steps` generations.
    pub fn advance(&mut self, steps: usize)
        requires
            old(self).wf(),
        ensures
            final(self).wf(),
            final(self)@ == generations(old(self)@, steps as nat),
            steps > 0 ==> final(self).scratch() == generations(old(self)@, (steps - 1) as nat),
            steps == 0 ==> *final(self) == *old(self),
    {
        let mut done: usize = 0;
        while done < steps
            invariant
                done <= steps,
                self.wf(),
                self@ == generations(old(self)@, done as nat),
                done > 0 ==> self.scratch() == generations(old(self)@, (done - 1) as nat),
                done == 0 ==> *self == *old(self),
            decreases steps - done,
        {
            self.step();
            done += 1;
        }
    }
}

} // verus!
