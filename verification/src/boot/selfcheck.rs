//! The check before the data socket is opened: no one that could connect to it may
//! run under the daemon's own uid.

use vstd::prelude::*;

verus! {

/// What the self-check says.
#[derive(Clone, Copy, Debug, PartialEq, Eq, Structural)]
pub enum SelfCheck {
    /// The data socket may be opened.
    Pass,
    /// The daemon's own uid could connect: the data socket stays closed.
    RefuseSameUid,
}

impl SelfCheck {
    /// Whether the data socket may be opened.
    pub fn is_pass(self) -> (pass: bool)
        ensures
            pass == (self == SelfCheck::Pass),
    {
        matches!(self, SelfCheck::Pass)
    }
}

/// Checks the daemon's own uid against those that could connect.
pub fn connectable_uid_check(self_uid: u32, connectable: &[u32]) -> (check: SelfCheck)
    ensures
        check == if connectable@.contains(self_uid) {
            SelfCheck::RefuseSameUid
        } else {
            SelfCheck::Pass
        },
{
    let mut i: usize = 0;
    while i < connectable.len()
        invariant
            i <= connectable@.len(),
            forall|j: int| 0 <= j < i ==> connectable@[j] != self_uid,
        decreases connectable@.len() - i,
    {
        if connectable[i] == self_uid {
            return SelfCheck::RefuseSameUid;
        }
        i = i + 1;
    }
    SelfCheck::Pass
}

} // verus!
