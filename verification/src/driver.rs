//! The tick driver: it decides on each scheduler tick whether the board
//! advances.

use crate::double_buffer::DoubleBuffer;
use crate::model::next_generation;
use vstd::prelude::*;

verus! {

/// When the board advances.
#[derive(Clone, Copy, Debug, PartialEq, Eq, Structural)]
pub enum TickMode {
    /// On every scheduler tick.
    Continuous,
    /// Only on a tick on which the advance trigger was observed.
    EventGated,
}

/// Whether a tick in `mode` advances the board, given whether the trigger
/// was observed on it.
pub open spec fn advances(mode: TickMode, trigger: bool) -> bool {
    match mode {
        TickMode::Continuous => true,
        TickMode::EventGated => trigger,
    }
}

/// Invokes the controller on the ticks that its mode selects.
#[derive(Clone, Copy, Debug)]
pub struct TickDriver {
    mode: TickMode,
}

impl TickDriver {
    /// The mode the driver was made with.
    pub closed spec fn spec_mode(&self) -> TickMode {
        self.mode
    }

    /// A driver for `mode`.
    pub fn new(mode: TickMode) -> (driver: TickDriver)
        ensures
            driver.spec_mode() == mode,
    {
        TickDriver { mode }
    }

    /// The mode the driver was made with.
    pub fn mode(&self) -> (mode: TickMode)
        ensures
            mode == self.spec_mode(),
    {
        self.mode
    }

    /// Whether a tick advances the board, given whether the trigger was
    /// observed on it.
    pub fn should_step(&self, trigger: bool) -> (go: bool)
        ensures
            go == advances(self.spec_mode(), trigger),
    {
        match self.mode {
            TickMode::Continuous => true,
            TickMode::EventGated => trigger,
        }
    }

    /// Handles one scheduler tick: steps the board where the mode asks for
    /// it, and otherwise leaves it untouched. Returns whether it stepped.
    pub fn tick(&self, board: &mut DoubleBuffer, trigger: bool) -> (stepped: bool)
        requires
            old(board).wf(),
        ensures
            final(board).wf(),
            stepped == advances(self.spec_mode(), trigger),
            stepped ==> {
                &&& final(board)@ == next_generation(old(board)@)
                &&& final(board).scratch() == old(board)@
                &&& final(board).first_is_active() == !old(board).first_is_active()
            },
            !stepped ==> *final(board) == *old(board),
    {
        if self.should_step(trigger) {
            board.step();
            true
        } else {
            false
        }
    }
}

} // verus!
