//! The lease: one borrowed connection.

use crate::table::TextPair;
use vstd::prelude::*;

verus! {

/// A borrowed connection.
///
/// The lease remembers its pool key, whether its connection may be pooled and
/// the abort epoch in which it was lent. It goes back to the pool by
/// [`ConnPool::give_back`](super::pool::ConnPool::give_back).
pub struct Lease<C> {
    channel: C,
    damaged: bool,
    key: TextPair,
    persistent: bool,
    epoch: u64,
}

impl<C> Lease<C> {
    /// The borrowed connection.
    pub closed spec fn channel(&self) -> C {
        self.channel
    }

    /// Whether the connection was marked damaged.
    pub closed spec fn damaged(&self) -> bool {
        self.damaged
    }

    /// The pool key: resource code and tier name.
    pub closed spec fn key(&self) -> (Seq<char>, Seq<char>) {
        self.key@
    }

    /// Whether the connection may be pooled.
    pub closed spec fn persistent(&self) -> bool {
        self.persistent
    }

    /// The abort epoch of the pool key when the connection was lent.
    pub closed spec fn epoch(&self) -> u64 {
        self.epoch
    }

    pub(super) fn new(channel: C, key: TextPair, persistent: bool, epoch: u64) -> (lease: Self)
        ensures
            lease.channel() == channel,
            !lease.damaged(),
            lease.key() == key@,
            lease.persistent() == persistent,
            lease.epoch() == epoch,
    {
        Lease { channel, damaged: false, key, persistent, epoch }
    }

    /// Access to the borrowed connection.
    pub fn channel_mut(&mut self) -> (channel: &mut C)
        ensures
            *channel == old(self).channel(),
            final(self).channel() == *final(channel),
            final(self).damaged() == old(self).damaged(),
            final(self).key() == old(self).key(),
            final(self).persistent() == old(self).persistent(),
            final(self).epoch() == old(self).epoch(),
    {
        &mut self.channel
    }

    /// Marks the connection damaged: it will be destroyed, not pooled.
    pub fn mark_damaged(&mut self)
        ensures
            final(self).damaged(),
            final(self).channel() == old(self).channel(),
            final(self).key() == old(self).key(),
            final(self).persistent() == old(self).persistent(),
            final(self).epoch() == old(self).epoch(),
    {
        self.damaged = true;
    }

    /// Cleans the session before the connection goes back. A damaged connection
    /// cannot be cleaned.
    pub fn sanitize_for_return(&mut self) -> (clean: bool)
        ensures
            clean == !old(self).damaged(),
            *final(self) == *old(self),
    {
        self.do_sanitize()
    }

    /// The pool key: resource code and tier name.
    pub fn pool_key(&self) -> (key: &TextPair)
        ensures
            key@ == self.key(),
    {
        &self.key
    }

    /// Whether the connection may be pooled.
    pub fn is_persistent(&self) -> (yes: bool)
        ensures
            yes == self.persistent(),
    {
        self.persistent
    }

    fn do_sanitize(&self) -> (clean: bool)
        ensures
            clean == !self.damaged(),
    {
        !self.damaged
    }

    pub(super) fn into_parts(self) -> (parts: LeaseParts<C>)
        ensures
            parts.channel == self.channel(),
            parts.clean == !self.damaged(),
            parts.key@ == self.key(),
            parts.persistent == self.persistent(),
            parts.epoch == self.epoch(),
    {
        let clean: bool = self.do_sanitize();
        LeaseParts {
            channel: self.channel,
            clean,
            key: self.key,
            persistent: self.persistent,
            epoch: self.epoch,
        }
    }
}

/// What the pool reads of a lease that comes back.
pub(super) struct LeaseParts<C> {
    pub(super) channel: C,
    pub(super) clean: bool,
    pub(super) key: TextPair,
    pub(super) persistent: bool,
    pub(super) epoch: u64,
}

} // verus!
