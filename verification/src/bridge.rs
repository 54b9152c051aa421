//! Execution-bridge model: a non-blocking front end hands synchronous store
//! work to a bounded worker pool and gets the outcome back, with cancellation
//! kept distinct from the task's own error. The accounting model here pins
//! down the pool's guarantees: at most `pool_size` tasks run at once, and
//! excess submissions queue instead of spawning unbounded work.

use vstd::prelude::*;

verus! {

/// How a bridged task can fail: the caller abandoned interest (or the pool
/// was torn down) before completion, or the task itself failed with its own
/// error, preserved and distinguishable.
#[derive(Debug, PartialEq, Eq, Structural)]
pub enum BridgeError<E> {
    /// The outcome could not be reported to its caller.
    Cancelled,
    /// The task ran and failed with its own error.
    Inner(E),
}

/// Accounting for a bounded worker pool: how many tasks run right now and how
/// many wait in the queue.
pub struct Bridge {
    /// Upper bound on concurrently running tasks; fixed at construction.
    pub pool_size: usize,
    /// Tasks running right now; never exceeds `pool_size`.
    pub running: usize,
    /// Tasks submitted but not yet running.
    pub queued: usize,
}

impl Bridge {
    /// At most `pool_size` tasks execute concurrently.
    pub open spec fn inv(self) -> bool {
        1 <= self.pool_size && self.running <= self.pool_size
    }

    /// A fresh, idle pool of the given size.
    pub fn new(pool_size: usize) -> (b: Bridge)
        requires
            pool_size >= 1,
        ensures
            b.inv(),
            b.pool_size == pool_size,
            b.running == 0,
            b.queued == 0,
    {
        Bridge { pool_size, running: 0, queued: 0 }
    }

    /// Submitting a task: it starts right away while a worker is free, and
    /// queues otherwise — never more than `pool_size` run at once.
    pub fn submit(&mut self)
        requires
            old(self).inv(),
            old(self).queued < usize::MAX,
        ensures
            final(self).inv(),
            final(self).pool_size == old(self).pool_size,
            old(self).running < old(self).pool_size ==> final(self).running == old(self).running
                + 1 && final(self).queued == old(self).queued,
            old(self).running >= old(self).pool_size ==> final(self).running == old(self).running
                && final(self).queued == old(self).queued + 1,
    {
        if self.running < self.pool_size {
            self.running = self.running + 1;
        } else {
            self.queued = self.queued + 1;
        }
    }

    /// A running task finished: a queued task takes the freed worker at once,
    /// if any is waiting.
    pub fn finish(&mut self)
        requires
            old(self).inv(),
            old(self).running >= 1,
        ensures
            final(self).inv(),
            final(self).pool_size == old(self).pool_size,
            old(self).queued > 0 ==> final(self).running == old(self).running && final(self).queued
                == old(self).queued - 1,
            old(self).queued == 0 ==> final(self).running == old(self).running - 1 && final(self).queued == 0,
    {
        if self.queued > 0 {
            self.queued = self.queued - 1;
        } else {
            self.running = self.running - 1;
        }
    }
}

} // verus!
