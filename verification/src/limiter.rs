//! A per-model concurrency limiter: at most `cap` streaming requests are
//! in flight at once; a further caller waits for a permit instead of being
//! rejected. The embedding application owns the waiting (it retries when a
//! permit frees); the accounting and the cap are verified here.

use vstd::prelude::*;

verus! {

pub struct RequestLimiter {
    active: usize,
    cap: usize,
}

impl RequestLimiter {
    pub closed spec fn spec_active(&self) -> usize {
        self.active
    }

    pub closed spec fn spec_cap(&self) -> usize {
        self.cap
    }

    /// The number of permits handed out never passes the cap.
    pub open spec fn wf(&self) -> bool {
        self.spec_active() <= self.spec_cap()
    }

    /// A new request may start only while a permit is free.
    pub open spec fn can_grant(&self) -> bool {
        self.spec_active() < self.spec_cap()
    }

    pub fn new(cap: usize) -> (r: Self)
        ensures
            r.spec_cap() == cap,
            r.spec_active() == 0,
            r.wf(),
    {
        RequestLimiter { active: 0, cap }
    }

    /// How many requests hold a permit.
    pub fn active(&self) -> (r: usize)
        ensures
            r == self.spec_active(),
    {
        self.active
    }

    pub fn cap(&self) -> (r: usize)
        ensures
            r == self.spec_cap(),
    {
        self.cap
    }

    /// Grants a permit exactly while one is free; a refused caller must
    /// wait and try again once a running request releases its permit.
    pub fn try_acquire(&mut self) -> (r: bool)
        requires
            old(self).wf(),
        ensures
            final(self).wf(),
            r == old(self).can_grant(),
            final(self).spec_cap() == old(self).spec_cap(),
            r ==> final(self).spec_active() == old(self).spec_active() + 1,
            !r ==> final(self).spec_active() == old(self).spec_active(),
    {
        if self.active < self.cap {
            self.active = self.active + 1;
            true
        } else {
            false
        }
    }

    /// Returns a permit when a request finishes.
    pub fn release(&mut self)
        requires
            old(self).wf(),
            old(self).spec_active() > 0,
        ensures
            final(self).wf(),
            final(self).spec_cap() == old(self).spec_cap(),
            final(self).spec_active() == old(self).spec_active() - 1,
    {
        self.active = self.active - 1;
    }
}

/// The concurrency cap is hard: while `cap` requests hold permits, no
/// further permit can be granted, so an extra call waits until a running
/// request finishes.
pub proof fn lemma_cap_blocks_next(l: RequestLimiter)
    requires
        l.wf(),
        l.spec_active() == l.spec_cap(),
    ensures
        !l.can_grant(),
{
}

} // verus!
