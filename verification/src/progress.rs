use vstd::prelude::*;

verus! {

/// Presentation-side counters for the progress display: the expected
/// total, the completed count on show, and how many attempts have been
/// ticked. These drive the display alone; the run's final summary
/// comes from the driver's own counters.
pub struct ProgressState {
    pub total: usize,
    pub completed: usize,
    pub attempted: usize,
    pub finished: bool,
}

impl ProgressState {
    /// The displayed counts never pass the expected total.
    pub open spec fn wf(&self) -> bool {
        self.completed <= self.total && self.attempted <= self.total
    }

    /// A fresh display over `total` expected downloads.
    pub fn new(total: usize) -> (p: ProgressState)
        ensures
            p.total == total,
            p.completed == 0,
            p.attempted == 0,
            !p.finished,
            p.wf(),
    {
        ProgressState { total, completed: 0, attempted: 0, finished: false }
    }

    /// Called once per confirmed successful download: the displayed
    /// completed count grows by one and nothing else moves.
    pub fn advance(&mut self)
        requires
            old(self).wf(),
            old(self).completed < old(self).total,
        ensures
            final(self).completed == old(self).completed + 1,
            final(self).total == old(self).total,
            final(self).attempted == old(self).attempted,
            final(self).finished == old(self).finished,
            final(self).wf(),
    {
        self.completed = self.completed + 1;
    }

    /// Called once per attempt, successful or not: moves the counter
    /// behind the time-based display elements without touching the
    /// completed count.
    pub fn tick(&mut self)
        requires
            old(self).wf(),
            old(self).attempted < old(self).total,
        ensures
            final(self).attempted == old(self).attempted + 1,
            final(self).total == old(self).total,
            final(self).completed == old(self).completed,
            final(self).finished == old(self).finished,
            final(self).wf(),
    {
        self.attempted = self.attempted + 1;
    }

    /// Called once, when no more updates will come: the display may
    /// settle into its final state. No count moves.
    pub fn finish(&mut self)
        requires
            old(self).wf(),
        ensures
            final(self).finished,
            final(self).total == old(self).total,
            final(self).completed == old(self).completed,
            final(self).attempted == old(self).attempted,
            final(self).wf(),
    {
        self.finished = true;
    }
}

} // verus!
