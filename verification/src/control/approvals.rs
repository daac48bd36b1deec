//! Requests for more rights that wait for a person.
//!
//! Whatever is asked for is refused online. With approvals switched off nothing
//! waits; with approvals switched on the request is kept in memory for a person to
//! look at, and a restart refuses all that waits.

use super::{ApprovalOutcome, PendingApproval};
use vstd::prelude::*;

verus! {

/// The requests that wait.
pub struct ApprovalQueue {
    approvals_enabled: bool,
    pending: Vec<PendingApproval>,
}

impl ApprovalQueue {
    /// Whether approvals are switched on.
    pub closed spec fn enabled(&self) -> bool {
        self.approvals_enabled
    }

    /// The requests that wait, in order.
    pub closed spec fn pending(&self) -> Seq<PendingApproval> {
        self.pending@
    }

    /// With approvals switched off nothing waits.
    pub open spec fn wf(&self) -> bool {
        !self.enabled() ==> self.pending().len() == 0
    }

    /// An empty queue.
    pub fn new(approvals_enabled: bool) -> (queue: Self)
        ensures
            queue.wf(),
            queue.enabled() == approvals_enabled,
            queue.pending() == Seq::<PendingApproval>::empty(),
    {
        Self { approvals_enabled, pending: Vec::new() }
    }

    /// Takes a request, which is refused; it waits only with approvals switched on.
    pub fn submit(&mut self, request: PendingApproval) -> (outcome: ApprovalOutcome)
        requires
            old(self).wf(),
        ensures
            final(self).wf(),
            outcome == ApprovalOutcome::Denied,
            final(self).enabled() == old(self).enabled(),
            final(self).pending() == if old(self).enabled() {
                old(self).pending().push(request)
            } else {
                old(self).pending()
            },
    {
        if self.approvals_enabled {
            self.pending.push(request);
        }
        ApprovalOutcome::Denied
    }

    /// How many requests wait.
    pub fn pending_len(&self) -> (n: usize)
        requires
            self.wf(),
        ensures
            n == self.pending().len(),
            !self.enabled() ==> n == 0,
    {
        self.pending.len()
    }

    /// Refuses all that wait, and tells how many they were.
    pub fn deny_all_on_restart(&mut self) -> (denied: usize)
        requires
            old(self).wf(),
        ensures
            final(self).wf(),
            denied == old(self).pending().len(),
            final(self).enabled() == old(self).enabled(),
            final(self).pending() == Seq::<PendingApproval>::empty(),
    {
        let denied: usize = self.pending.len();
        self.pending = Vec::new();
        denied
    }
}

} // verus!
