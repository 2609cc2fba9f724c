//! The termination timer: it counts observations against a budget of ticks
//! and signals shutdown once, when the budget is used up.

use vstd::prelude::*;

verus! {

/// Where the timer stands.
#[derive(Clone, Copy, Debug, PartialEq, Eq, Structural)]
pub enum TimerPhase {
    /// Not yet observed: the countdown has not begun.
    Uninitialized,
    /// Counting.
    Running,
    /// The budget is used up and shutdown has been signalled.
    Finished,
}

/// The timer as a mathematical value.
pub struct TimerModel {
    pub total_ticks: nat,
    pub elapsed: nat,
    pub phase: TimerPhase,
}

/// A timer that has not been observed yet.
pub open spec fn fresh(total_ticks: nat) -> TimerModel {
    TimerModel { total_ticks, elapsed: 0, phase: TimerPhase::Uninitialized }
}

/// The states that a timer can be in: nothing has elapsed before the first
/// observation, a running timer has budget left (or never had any), and a
/// finished one has used all of it.
pub open spec fn valid(t: TimerModel) -> bool {
    match t.phase {
        TimerPhase::Uninitialized => t.elapsed == 0,
        TimerPhase::Running => t.elapsed < t.total_ticks || t.elapsed == 0,
        TimerPhase::Finished => t.elapsed == t.total_ticks,
    }
}

/// The timer after one observation. The first observation starts the
/// countdown; each later one adds a tick, and the one that uses up the budget
/// finishes the timer; a finished timer stays as it is.
pub open spec fn observed(t: TimerModel) -> TimerModel {
    match t.phase {
        TimerPhase::Uninitialized => TimerModel { phase: TimerPhase::Running, ..t },
        TimerPhase::Running => if t.elapsed + 1 >= t.total_ticks {
            TimerModel { elapsed: t.total_ticks, phase: TimerPhase::Finished, ..t }
        } else {
            TimerModel { elapsed: t.elapsed + 1, ..t }
        },
        TimerPhase::Finished => t,
    }
}

/// Whether one observation of the timer signals shutdown: it does when it
/// takes a running timer to the end of its budget.
pub open spec fn signals(t: TimerModel) -> bool {
    t.phase == TimerPhase::Running && t.elapsed + 1 >= t.total_ticks
}

/// The timer after `n` observations.
pub open spec fn observed_times(t: TimerModel, n: nat) -> TimerModel
    decreases n,
{
    if n == 0 {
        t
    } else {
        observed(observed_times(t, (n - 1) as nat))
    }
}

/// Counts scheduler ticks against the iteration budget.
#[derive(Debug)]
pub struct TerminationTimer {
    total_ticks: u32,
    elapsed: u32,
    phase: TimerPhase,
}

impl View for TerminationTimer {
    type V = TimerModel;

    closed spec fn view(&self) -> TimerModel {
        TimerModel {
            total_ticks: self.total_ticks as nat,
            elapsed: self.elapsed as nat,
            phase: self.phase,
        }
    }
}

impl TerminationTimer {
    /// The timer is in a state that observations of a fresh timer lead to.
    pub open spec fn wf(&self) -> bool {
        valid(self@)
    }

    /// A timer with a budget of `total_ticks`, not yet observed.
    pub fn new(total_ticks: u32) -> (timer: TerminationTimer)
        ensures
            timer.wf(),
            timer@ == fresh(total_ticks as nat),
    {
        TerminationTimer { total_ticks, elapsed: 0, phase: TimerPhase::Uninitialized }
    }

    /// Observes one scheduler tick and says whether to shut down now. The
    /// answer is `true` on one observation only: the one on which the elapsed
    /// ticks reach the budget. Elapsed time never goes back.
    pub fn observe(&mut self) -> (shutdown: bool)
        requires
            old(self).wf(),
        ensures
            final(self).wf(),
            final(self)@ == observed(old(self)@),
            shutdown == signals(old(self)@),
            final(self)@.elapsed >= old(self)@.elapsed,
    {
        match self.phase {
            TimerPhase::Uninitialized => {
                self.phase = TimerPhase::Running;
                false
            },
            TimerPhase::Running => {
                if self.total_ticks <= 1 || self.elapsed >= self.total_ticks - 1 {
                    self.elapsed = self.total_ticks;
                    self.phase = TimerPhase::Finished;
                    true
                } else {
                    self.elapsed = self.elapsed + 1;
                    false
                }
            },
            TimerPhase::Finished => false,
        }
    }

    /// The budget of ticks.
    pub fn total_ticks(&self) -> (total: u32)
        ensures
            total == self@.total_ticks,
    {
        self.total_ticks
    }

    /// The ticks counted so far.
    pub fn elapsed(&self) -> (elapsed: u32)
        ensures
            elapsed == self@.elapsed,
    {
        self.elapsed
    }

    /// Where the timer stands.
    pub fn phase(&self) -> (phase: TimerPhase)
        ensures
            phase == self@.phase,
    {
        self.phase
    }

    /// Whether shutdown has been signalled.
    pub fn finished(&self) -> (done: bool)
        ensures
            done == (self@.phase == TimerPhase::Finished),
    {
        match self.phase {
            TimerPhase::Finished => true,
            _ => false,
        }
    }
}

} // verus!
