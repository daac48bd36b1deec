//! Calls of what stands outside the daemon, each written down as it is made.
//!
//! A [`Witnessed`] part can be reached through the calls below alone, and each of them
//! adds exactly one entry to the part's log. What a function does to a part can then be
//! stated over the log, with nothing asked of the part itself.

use crate::assemble::{PlaneSpawner, Spawned};
use crate::boot::sockets::{SockPerms, SocketEffects, SocketSubStep};
use crate::boot::{
    BootStage, ConnectableUidProbe, HandleKind, Plane, Preconditions, RouterAssembler,
    SocketFactory,
};
use crate::error::DaemonError;
use vstd::prelude::*;

verus! {

/// A part that stands outside, with the log of the calls that were made of it.
pub struct Witnessed<T, E> {
    part: T,
    log: Ghost<Seq<E>>,
}

/// A step of the boot sequence that was tried, and why it failed, if it did.
pub type Attempt = (BootStage, Option<DaemonError>);

/// A router that was to be assembled of some handles, and why it was not.
pub type Assembly = (Plane, Seq<HandleKind>, Option<DaemonError>);

/// A part of the process that was to be spawned with some handles, and why it was not.
pub type Spawn = (Spawned, Seq<HandleKind>, Option<DaemonError>);

/// An own uid and the uids that could connect, as a probe reported them.
pub type Sighting = (u32, Seq<u32>);

/// A step of creating a socket that was taken: which, with which permissions, and why
/// it failed, if it did.
pub struct StepTaken {
    pub step: SocketSubStep,
    pub perms: Option<SockPerms>,
    pub failure: Option<DaemonError>,
}

/// Why a call failed, if it did.
pub open spec fn failure_of(result: Result<(), DaemonError>) -> Option<DaemonError> {
    match result {
        Ok(_) => None,
        Err(e) => Some(e),
    }
}

impl<T, E> Witnessed<T, E> {
    /// The part.
    pub closed spec fn part(&self) -> T {
        self.part
    }

    /// The calls so far, in order.
    pub closed spec fn log(&self) -> Seq<E> {
        self.log@
    }

    /// A part of which no call was made yet.
    pub fn new(part: T) -> (witnessed: Self)
        ensures
            witnessed.part() == part,
            witnessed.log() == Seq::<E>::empty(),
    {
        Witnessed { part, log: Ghost(Seq::empty()) }
    }

    /// Gives the part back.
    pub fn into_part(self) -> (part: T)
        ensures
            part == self.part(),
    {
        self.part
    }
}

impl<P: Preconditions> Witnessed<P, Attempt> {
    /// Opens the policy database.
    pub fn open_db(&mut self) -> (result: Result<(), DaemonError>)
        ensures
            final(self).part() == old(self).part(),
            final(self).log() == old(self).log().push((BootStage::OpenDb, failure_of(result))),
    {
        let result = self.part.open_db();
        self.log = Ghost(self.log@.push((BootStage::OpenDb, failure_of(result))));
        result
    }

    /// Checks the database's migration.
    pub fn migrate(&mut self) -> (result: Result<(), DaemonError>)
        ensures
            final(self).part() == old(self).part(),
            final(self).log() == old(self).log().push((BootStage::Migrate, failure_of(result))),
    {
        let result = self.part.migrate();
        self.log = Ghost(self.log@.push((BootStage::Migrate, failure_of(result))));
        result
    }

    /// Builds the first policy snapshot.
    pub fn rebuild_first_snapshot(&mut self) -> (result: Result<(), DaemonError>)
        ensures
            final(self).part() == old(self).part(),
            final(self).log() == old(self).log().push(
                (BootStage::FirstSnapshot, failure_of(result)),
            ),
    {
        let result = self.part.rebuild_first_snapshot();
        self.log = Ghost(self.log@.push((BootStage::FirstSnapshot, failure_of(result))));
        result
    }

    /// Unlocks the vault.
    pub fn unlock_vault(&mut self) -> (result: Result<(), DaemonError>)
        ensures
            final(self).part() == old(self).part(),
            final(self).log() == old(self).log().push((BootStage::UnlockVault, failure_of(result))),
    {
        let result = self.part.unlock_vault();
        self.log = Ghost(self.log@.push((BootStage::UnlockVault, failure_of(result))));
        result
    }
}

impl<S: SocketFactory> Witnessed<S, Attempt> {
    /// Creates the control socket.
    pub fn create_control(&mut self) -> (result: Result<(), DaemonError>)
        ensures
            final(self).part() == old(self).part(),
            final(self).log() == old(self).log().push(
                (BootStage::ControlSocket, failure_of(result)),
            ),
    {
        let result = self.part.create_control();
        self.log = Ghost(self.log@.push((BootStage::ControlSocket, failure_of(result))));
        result
    }

    /// Creates the data socket and opens the data plane.
    pub fn create_data(&mut self) -> (result: Result<(), DaemonError>)
        ensures
            final(self).part() == old(self).part(),
            final(self).log() == old(self).log().push((BootStage::DataSocket, failure_of(result))),
    {
        let result = self.part.create_data();
        self.log = Ghost(self.log@.push((BootStage::DataSocket, failure_of(result))));
        result
    }
}

/// Whether a probe can report a sighting.
pub open spec fn can_report<U: ConnectableUidProbe>(probe: U, sighting: Sighting) -> bool {
    &&& call_ensures(U::self_uid, (&probe,), sighting.0)
    &&& exists|uids: Vec<u32>|
        uids@ == sighting.1 && #[trigger] call_ensures(U::connectable_uids, (&probe,), uids)
}

impl<U: ConnectableUidProbe> Witnessed<U, Sighting> {
    /// Asks for the own uid and for the uids that could connect.
    pub fn sight(&mut self) -> (sighting: (u32, Vec<u32>))
        ensures
            final(self).part() == old(self).part(),
            final(self).log() == old(self).log().push((sighting.0, sighting.1@)),
            can_report(old(self).part(), (sighting.0, sighting.1@)),
    {
        let uids = self.part.connectable_uids();
        let uid: u32 = self.part.self_uid();
        self.log = Ghost(self.log@.push((uid, uids@)));
        (uid, uids)
    }
}

impl<A: RouterAssembler> Witnessed<A, Assembly> {
    /// Assembles the data plane's router.
    pub fn assemble_data_plane(&mut self, handles: &[HandleKind]) -> (result: Result<
        (),
        DaemonError,
    >)
        ensures
            final(self).part() == old(self).part(),
            final(self).log() == old(self).log().push((Plane::Data, handles@, failure_of(result))),
    {
        let result = self.part.assemble_data_plane(handles);
        self.log = Ghost(self.log@.push((Plane::Data, handles@, failure_of(result))));
        result
    }

    /// Assembles the control plane's router.
    pub fn assemble_control_plane(&mut self, handles: &[HandleKind]) -> (result: Result<
        (),
        DaemonError,
    >)
        ensures
            final(self).part() == old(self).part(),
            final(self).log() == old(self).log().push(
                (Plane::Control, handles@, failure_of(result)),
            ),
    {
        let result = self.part.assemble_control_plane(handles);
        self.log = Ghost(self.log@.push((Plane::Control, handles@, failure_of(result))));
        result
    }
}

impl<S: PlaneSpawner> Witnessed<S, Spawn> {
    /// Spawns the data plane.
    pub fn spawn_data_plane(&mut self, handles: &[HandleKind]) -> (result: Result<
        (),
        DaemonError,
    >)
        ensures
            final(self).part() == old(self).part(),
            final(self).log() == old(self).log().push(
                (Spawned::DataPlane, handles@, failure_of(result)),
            ),
    {
        let result = self.part.spawn_data_plane(handles);
        self.log = Ghost(self.log@.push((Spawned::DataPlane, handles@, failure_of(result))));
        result
    }

    /// Spawns the control plane.
    pub fn spawn_control_plane(&mut self, handles: &[HandleKind]) -> (result: Result<
        (),
        DaemonError,
    >)
        ensures
            final(self).part() == old(self).part(),
            final(self).log() == old(self).log().push(
                (Spawned::ControlPlane, handles@, failure_of(result)),
            ),
    {
        let result = self.part.spawn_control_plane(handles);
        self.log = Ghost(self.log@.push((Spawned::ControlPlane, handles@, failure_of(result))));
        result
    }

    /// Spawns the sweeper.
    pub fn spawn_sweeper(&mut self, handles: &[HandleKind]) -> (result: Result<(), DaemonError>)
        ensures
            final(self).part() == old(self).part(),
            final(self).log() == old(self).log().push(
                (Spawned::Sweeper, handles@, failure_of(result)),
            ),
    {
        let result = self.part.spawn_sweeper(handles);
        self.log = Ghost(self.log@.push((Spawned::Sweeper, handles@, failure_of(result))));
        result
    }
}

impl<E: SocketEffects> Witnessed<E, StepTaken> {
    /// Binds the socket.
    pub fn bind(&mut self) -> (result: Result<(), DaemonError>)
        ensures
            final(self).part() == old(self).part(),
            final(self).log() == old(self).log().push(
                StepTaken {
                    step: SocketSubStep::Bind,
                    perms: None,
                    failure: failure_of(result),
                },
            ),
    {
        let result = self.part.bind();
        self.log = Ghost(
            self.log@.push(
                StepTaken {
                    step: SocketSubStep::Bind,
                    perms: None,
                    failure: failure_of(result),
                },
            ),
        );
        result
    }

    /// Narrows the socket's permissions.
    pub fn secure(&mut self, perms: SockPerms) -> (result: Result<(), DaemonError>)
        ensures
            final(self).part() == old(self).part(),
            final(self).log() == old(self).log().push(
                StepTaken {
                    step: SocketSubStep::Secure,
                    perms: Some(perms),
                    failure: failure_of(result),
                },
            ),
    {
        let result = self.part.secure(perms);
        self.log = Ghost(
            self.log@.push(
                StepTaken {
                    step: SocketSubStep::Secure,
                    perms: Some(perms),
                    failure: failure_of(result),
                },
            ),
        );
        result
    }

    /// Starts listening.
    pub fn listen(&mut self) -> (result: Result<(), DaemonError>)
        ensures
            final(self).part() == old(self).part(),
            final(self).log() == old(self).log().push(
                StepTaken {
                    step: SocketSubStep::Listen,
                    perms: None,
                    failure: failure_of(result),
                },
            ),
    {
        let result = self.part.listen();
        self.log = Ghost(
            self.log@.push(
                StepTaken {
                    step: SocketSubStep::Listen,
                    perms: None,
                    failure: failure_of(result),
                },
            ),
        );
        result
    }
}

/// A call that succeeded is written down without a failure, and one that failed with its
/// very error.
pub proof fn failures_are_written_down(e: DaemonError)
    ensures
        failure_of(Ok(())) is None,
        failure_of(Err(e)) == Some(e),
{
}

} // verus!
