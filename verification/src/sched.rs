use vstd::prelude::*;

verus! {

/// What the driver is told to do next: process one link (run its cycle,
/// then persist its cursor whatever happened), or sleep for the configured
/// interval before the next pass.
#[derive(PartialEq, Eq, Structural, Clone, Copy, Debug)]
pub enum SchedulerStep {
    RunLink(usize),
    Sleep,
}

/// The scheduling state machine. It has two states: running a pass (the
/// next link to process is `next < n_links`) and idle (`next == n_links`,
/// about to sleep). A pass visits every link once, in configured order;
/// one link's failure never keeps the others from being visited, because
/// the schedule does not depend on outcomes. There is no terminal state.
#[derive(PartialEq, Eq, Structural, Clone, Copy, Debug)]
pub struct Scheduler {
    pub n_links: usize,
    pub interval: u64,
    pub next: usize,
}

impl Scheduler {
    pub open spec fn wf(self) -> bool {
        self.next <= self.n_links
    }

    /// A scheduler over `n_links` links, starting at the top of a pass.
    pub fn new(n_links: usize, interval: u64) -> (r: Scheduler)
        ensures
            r.n_links == n_links,
            r.interval == interval,
            r.next == 0,
            r.wf(),
    {
        Scheduler { n_links, interval, next: 0 }
    }

    /// The next action: each pass yields `RunLink(0)` through
    /// `RunLink(n_links - 1)` in order, then one `Sleep`, and the cycle
    /// repeats forever.
    pub fn next_step(&mut self) -> (r: SchedulerStep)
        requires
            old(self).wf(),
        ensures
            final(self).wf(),
            final(self).n_links == old(self).n_links,
            final(self).interval == old(self).interval,
            old(self).next < old(self).n_links ==> r == SchedulerStep::RunLink(old(self).next)
                && final(self).next == old(self).next + 1,
            old(self).next >= old(self).n_links ==> r == SchedulerStep::Sleep
                && final(self).next == 0,
    {
        if self.next < self.n_links {
            let i = self.next;
            self.next = i + 1;
            SchedulerStep::RunLink(i)
        } else {
            self.next = 0;
            SchedulerStep::Sleep
        }
    }
}

} // verus!
