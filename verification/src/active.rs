//! The termination detector's shared state: how many workers are currently
//! doing work, the configured worker count, and the sticky `terminated`
//! flag. The driver guards one instance with a mutex; every transition the
//! protocol performs is a method here with an exact contract.
//!
//! A worker is counted active from the moment it is spawned (or woken)
//! until it parks after observing an empty queue. A walk is globally
//! finished precisely when the active count reaches zero: every worker has
//! then observed an empty queue without producing new work, so no item can
//! ever arrive again.

use vstd::prelude::*;

verus! {

/// Shared coordination state for one walk: the active-worker counter and
/// the termination flag of the detector.
pub struct ActiveState {
    active_count: usize,
    num_workers: usize,
    terminated: bool,
}

impl ActiveState {
    /// The number of workers currently doing work.
    pub closed spec fn active(&self) -> int {
        self.active_count as int
    }

    /// The configured number of workers.
    pub closed spec fn workers(&self) -> int {
        self.num_workers as int
    }

    /// Whether the detector has declared the walk finished.
    pub closed spec fn terminated(&self) -> bool {
        self.terminated
    }

    /// The state invariant: never more active workers than exist.
    pub open spec fn wf(&self) -> bool {
        0 <= self.active() <= self.workers()
    }

    /// One legal transition of the protocol: a worker parks, a worker
    /// wakes, or the detector declares termination.
    pub open spec fn steps_to(pre: ActiveState, post: ActiveState) -> bool {
        ||| (post.active() == pre.active() - 1 && post.workers() == pre.workers()
            && post.terminated() == pre.terminated())
        ||| (post.active() == pre.active() + 1 && post.workers() == pre.workers()
            && post.terminated() == pre.terminated())
        ||| (post.active() == pre.active() && post.workers() == pre.workers()
            && post.terminated())
    }

    /// Initial state: every spawned worker counts as active, and the walk
    /// is not yet finished.
    pub fn new(num_workers: usize) -> (s: ActiveState)
        requires
            num_workers >= 1,
        ensures
            s.active() == num_workers,
            s.workers() == num_workers,
            !s.terminated(),
            s.wf(),
    {
        ActiveState { active_count: num_workers, num_workers, terminated: false }
    }

    /// A worker observed an empty queue and parks: it leaves the active
    /// count before it may wait for work, so a zero count reliably means
    /// that no worker is about to discover new work.
    pub fn park_worker(&mut self)
        requires
            old(self).wf(),
            old(self).active() > 0,
        ensures
            final(self).active() == old(self).active() - 1,
            final(self).workers() == old(self).workers(),
            final(self).terminated() == old(self).terminated(),
            final(self).wf(),
            Self::steps_to(*old(self), *final(self)),
    {
        self.active_count = self.active_count - 1;
    }

    /// A parked worker was woken to resume work: it rejoins the active
    /// count before it pops anything, pairing every future push with an
    /// active worker.
    pub fn wake_worker(&mut self)
        requires
            old(self).wf(),
            old(self).active() < old(self).workers(),
        ensures
            final(self).active() == old(self).active() + 1,
            final(self).workers() == old(self).workers(),
            final(self).terminated() == old(self).terminated(),
            final(self).wf(),
            Self::steps_to(*old(self), *final(self)),
    {
        self.active_count = self.active_count + 1;
    }

    /// The dispatcher's test: the walk is finished exactly when no worker
    /// is active.
    pub fn all_parked(&self) -> (r: bool)
        ensures
            r == (self.active() == 0),
    {
        self.active_count == 0
    }

    /// The dispatcher declares the walk finished; the flag is sticky.
    pub fn declare_terminated(&mut self)
        ensures
            final(self).terminated(),
            final(self).active() == old(self).active(),
            final(self).workers() == old(self).workers(),
            final(self).wf() == old(self).wf(),
            Self::steps_to(*old(self), *final(self)),
    {
        self.terminated = true;
    }

    /// The current active-worker count.
    pub fn active_count(&self) -> (n: usize)
        ensures
            n == self.active(),
    {
        self.active_count
    }

    /// The configured worker count.
    pub fn worker_count(&self) -> (n: usize)
        ensures
            n == self.workers(),
    {
        self.num_workers
    }

    /// Whether the walk has been declared finished.
    pub fn is_terminated(&self) -> (r: bool)
        ensures
            r == self.terminated(),
    {
        self.terminated
    }
}

/// Once the detector has declared termination, no legal transition of the
/// protocol withdraws it: `terminated` stays true forever.
pub proof fn lemma_terminated_is_sticky(pre: ActiveState, post: ActiveState)
    requires
        pre.terminated(),
        ActiveState::steps_to(pre, post),
    ensures
        post.terminated(),
{
}

} // verus!
