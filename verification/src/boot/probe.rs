//! The daemon's own uid and the uids that could connect to the data socket.

use super::{refused, ConnectableUidProbe};
use crate::witness::{can_report, Sighting};
use vstd::prelude::*;

verus! {

/// The uid that stands for one that could not be determined.
pub const UNKNOWN_UID: u32 = 0xffff_ffff;

/// The probe of a running daemon: the path of the data socket and the daemon's own
/// uid as the kernel reports it, if it does.
///
/// The owner can always connect to its own socket, so it does not count, and no one
/// else is known to be able to. Where the own uid could not be determined it counts
/// as one that could connect, and the self-check refuses.
#[derive(Debug)]
pub struct RealUidProbe {
    data_sock: Vec<u8>,
    probed: Option<u32>,
}

impl RealUidProbe {
    /// The daemon's own uid as the kernel reports it.
    pub closed spec fn probed(&self) -> Option<u32> {
        self.probed
    }

    /// The path of the data socket.
    pub closed spec fn path(&self) -> Seq<u8> {
        self.data_sock@
    }

    /// A probe of the socket at a path.
    pub fn new(data_sock: Vec<u8>, probed: Option<u32>) -> (probe: Self)
        ensures
            probe.path() == data_sock@,
            probe.probed() == probed,
    {
        Self { data_sock, probed }
    }

    /// The path of the data socket.
    pub fn data_sock(&self) -> (path: &[u8])
        ensures
            path@ == self.path(),
    {
        self.data_sock.as_slice()
    }
}

/// The sighting of a probe.
pub open spec fn sighting(probe: &RealUidProbe) -> Sighting {
    match probe.probed() {
        Some(uid) => (uid, Seq::empty()),
        None => (UNKNOWN_UID, seq![UNKNOWN_UID]),
    }
}

impl ConnectableUidProbe for RealUidProbe {
    fn self_uid(&self) -> (uid: u32)
        ensures
            uid == sighting(self).0,
    {
        match self.probed {
            Some(uid) => uid,
            None => UNKNOWN_UID,
        }
    }

    fn connectable_uids(&self) -> (uids: Vec<u32>)
        ensures
            uids@ == sighting(self).1,
    {
        let mut uids: Vec<u32> = Vec::new();
        if self.probed.is_none() {
            uids.push(UNKNOWN_UID);
        }
        uids
    }
}

/// The self-check passes where the own uid is known, and refuses where it is not.
pub proof fn unknown_uid_is_refused(probe: RealUidProbe, sighted: Sighting)
    requires
        can_report(probe, sighted),
    ensures
        refused(sighted) <==> probe.probed() is None,
{
    if probe.probed() is None {
        assert(sighted.1[0] == sighted.0);
    }
}

/// A probe reports the uid that the kernel gave, and no one else; where the kernel gave
/// none it reports the largest uid there is, and that it could connect.
pub proof fn probe_reports_the_own_uid(probe: RealUidProbe, uid: u32)
    ensures
        probe.probed() == Some(uid) ==> sighting(&probe).0 == uid && sighting(&probe).1.len() == 0,
        probe.probed() is None ==> sighting(&probe).0 == u32::MAX && sighting(&probe).1 == seq![
            u32::MAX,
        ],
{
}

} // verus!
