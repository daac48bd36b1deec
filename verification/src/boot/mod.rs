//! The boot sequence.
//!
//! The order of the steps is the order of their safety: open the database, check
//! its migration, build the first snapshot, unlock the vault, register the plugins
//! and assemble both routers, create the control socket, check who could connect to
//! the data socket, and only then create the data socket. A step that fails ends
//! the sequence, so that the data socket never exists before everything behind it.

pub mod probe;
pub mod selfcheck;
pub mod sockets;

use crate::boot::selfcheck::connectable_uid_check;
use crate::domain::Stage;
use crate::error::DaemonError;
use crate::witness::{can_report, Assembly, Attempt, Sighting, Witnessed};
use vstd::prelude::*;

verus! {

/// A step of the boot sequence, in order.
#[derive(Clone, Copy, Debug, PartialEq, Eq, PartialOrd, Ord, Structural)]
pub enum BootStage {
    OpenDb,
    Migrate,
    FirstSnapshot,
    UnlockVault,
    RegisterPlugins,
    ControlSocket,
    ConnectableUidSelfCheck,
    DataSocket,
}

/// The step at which a boot failed.
#[derive(Clone, Copy, Debug, PartialEq, Eq, Structural)]
pub struct BootError {
    pub stage: BootStage,
}

impl BootError {
    /// A failure at a step.
    pub fn at(stage: BootStage) -> (err: Self)
        ensures
            err.stage == stage,
    {
        Self { stage }
    }
}

/// What has to be in place before any socket: database, migration, first snapshot
/// and vault.
pub trait Preconditions {
    /// Opens the policy database.
    fn open_db(&self) -> Result<(), DaemonError>;

    /// Checks the database's migration.
    fn migrate(&self) -> Result<(), DaemonError>;

    /// Builds the first policy snapshot.
    fn rebuild_first_snapshot(&self) -> Result<(), DaemonError>;

    /// Unlocks the vault.
    fn unlock_vault(&self) -> Result<(), DaemonError>;
}

/// Creates the two sockets.
pub trait SocketFactory {
    /// Creates the control socket.
    fn create_control(&self) -> Result<(), DaemonError>;

    /// Creates the data socket and opens the data plane.
    fn create_data(&self) -> Result<(), DaemonError>;
}

/// Who the daemon is, and who could connect to the data socket besides it.
pub trait ConnectableUidProbe {
    /// The daemon's own uid.
    fn self_uid(&self) -> u32;

    /// The uids that could connect.
    fn connectable_uids(&self) -> Vec<u32>;
}

/// One of the two planes.
#[derive(Clone, Copy, Debug, PartialEq, Eq, Structural)]
pub enum Plane {
    Data,
    Control,
}

/// Assembles the routers from the handles that each plane is given.
pub trait RouterAssembler {
    /// Assembles the data plane's router.
    fn assemble_data_plane(&self, handles: &[HandleKind]) -> Result<(), DaemonError>;

    /// Assembles the control plane's router.
    fn assemble_control_plane(&self, handles: &[HandleKind]) -> Result<(), DaemonError>;
}

/// A handle that a plane can be given.
#[derive(Clone, Copy, Debug, PartialEq, Eq, Structural)]
pub enum HandleKind {
    PolicyView,
    ConnPool,
    Sanitizer,
    Registries,
    /// The write access to the policy: for the control plane alone.
    PolicyRepo,
}

/// What a boot did.
#[derive(Debug)]
pub struct BootReport {
    pub executed: Vec<BootStage>,
    pub data_plane_open: bool,
    pub data_plane_handles: Vec<HandleKind>,
    pub control_plane_handles: Vec<HandleKind>,
}

impl Default for BootReport {
    fn default() -> (report: Self)
        ensures
            report.executed@.len() == 0,
            !report.data_plane_open,
            report.data_plane_handles@.len() == 0,
            report.control_plane_handles@.len() == 0,
    {
        BootReport {
            executed: Vec::new(),
            data_plane_open: false,
            data_plane_handles: Vec::new(),
            control_plane_handles: Vec::new(),
        }
    }
}

/// The handles of the data plane.
pub open spec fn data_handles() -> Seq<HandleKind> {
    seq![
        HandleKind::PolicyView,
        HandleKind::ConnPool,
        HandleKind::Sanitizer,
        HandleKind::Registries,
    ]
}

/// The handles of the control plane.
pub open spec fn control_handles() -> Seq<HandleKind> {
    seq![HandleKind::PolicyRepo]
}

/// Turns away handles for the data plane that have the write access to the policy
/// among them.
pub fn check_data_handles(handles: &[HandleKind]) -> (result: Result<(), DaemonError>)
    ensures
        match result {
            Ok(_) => !handles@.contains(HandleKind::PolicyRepo),
            Err(e) => handles@.contains(HandleKind::PolicyRepo) && e == DaemonError::Boot,
        },
{
    let mut i: usize = 0;
    while i < handles.len()
        invariant
            i <= handles@.len(),
            forall|j: int| 0 <= j < i ==> handles@[j] != HandleKind::PolicyRepo,
        decreases handles@.len() - i,
    {
        if handles[i] == HandleKind::PolicyRepo {
            return Err(DaemonError::Boot);
        }
        i = i + 1;
    }
    Ok(())
}

/// The steps of a boot, in order.
pub open spec fn boot_order() -> Seq<BootStage> {
    seq![
        BootStage::OpenDb,
        BootStage::Migrate,
        BootStage::FirstSnapshot,
        BootStage::UnlockVault,
        BootStage::RegisterPlugins,
        BootStage::ControlSocket,
        BootStage::ConnectableUidSelfCheck,
        BootStage::DataSocket,
    ]
}

/// The calls that a boot made, by part.
pub struct BootTrace {
    pub pre: Seq<Attempt>,
    pub assembled: Seq<Assembly>,
    pub sockets: Seq<Attempt>,
    pub sighted: Seq<Sighting>,
}

/// The steps up to `n`, all of which succeeded.
pub open spec fn succeeded(n: int) -> Seq<Attempt> {
    Seq::new(n as nat, |i: int| (boot_order()[i], None))
}

/// The routers of both planes were assembled.
pub open spec fn both_assembled() -> Seq<Assembly> {
    seq![
        (Plane::Data, data_handles(), None),
        (Plane::Control, control_handles(), None),
    ]
}

/// Whether the own uid is among those that could connect.
pub open spec fn refused(sighting: Sighting) -> bool {
    sighting.1.contains(sighting.0)
}

/// Whether exactly one sighting was added, and whether it is one that refuses.
pub open spec fn checked(before: Seq<Sighting>, after: Seq<Sighting>, refuses: bool) -> bool {
    &&& after.len() == before.len() + 1
    &&& after.drop_last() == before
    &&& refused(after.last()) == refuses
}

/// Whether the calls that were added are those of a boot that failed at `failed`, or
/// of one that failed nowhere.
pub open spec fn boot_course(
    before: BootTrace,
    after: BootTrace,
    failed: Option<BootStage>,
) -> bool {
    let pre_done = after.pre == before.pre + succeeded(4);
    let assembled = after.assembled == before.assembled + both_assembled();
    let control = (BootStage::ControlSocket, None::<DaemonError>);
    match failed {
        Some(stage) => match stage {
            BootStage::OpenDb
            | BootStage::Migrate
            | BootStage::FirstSnapshot
            | BootStage::UnlockVault => {
                &&& exists|i: int, e: DaemonError|
                    0 <= i < 4 && #[trigger] boot_order()[i] == stage && after.pre == #[trigger] (
                    before.pre + succeeded(i)).push((stage, Some(e)))
                &&& after.assembled == before.assembled
                &&& after.sockets == before.sockets
                &&& after.sighted == before.sighted
            },
            BootStage::RegisterPlugins => {
                &&& pre_done
                &&& {
                    ||| exists|e: DaemonError|
                        after.assembled == #[trigger] before.assembled.push(
                            (Plane::Data, data_handles(), Some(e)),
                        )
                    ||| exists|e: DaemonError|
                        after.assembled == #[trigger] before.assembled.push(
                            (Plane::Data, data_handles(), None),
                        ).push((Plane::Control, control_handles(), Some(e)))
                }
                &&& after.sockets == before.sockets
                &&& after.sighted == before.sighted
            },
            BootStage::ControlSocket => {
                &&& pre_done
                &&& assembled
                &&& exists|e: DaemonError|
                    after.sockets == #[trigger] before.sockets.push(
                        (BootStage::ControlSocket, Some(e)),
                    )
                &&& after.sighted == before.sighted
            },
            BootStage::ConnectableUidSelfCheck => {
                &&& pre_done
                &&& assembled
                &&& after.sockets == before.sockets.push(control)
                &&& checked(before.sighted, after.sighted, true)
            },
            BootStage::DataSocket => {
                &&& pre_done
                &&& assembled
                &&& exists|e: DaemonError|
                    after.sockets == #[trigger] before.sockets.push(control).push(
                        (BootStage::DataSocket, Some(e)),
                    )
                &&& checked(before.sighted, after.sighted, false)
            },
        },
        None => {
            &&& pre_done
            &&& assembled
            &&& after.sockets == before.sockets.push(control).push((BootStage::DataSocket, None))
            &&& checked(before.sighted, after.sighted, false)
        },
    }
}

/// The boot sequence over what it acts on.
pub struct Bootstrap<P, S, U, A> {
    pre: Witnessed<P, Attempt>,
    sockets: Witnessed<S, Attempt>,
    probe: Witnessed<U, Sighting>,
    assembler: Witnessed<A, Assembly>,
}

impl<P, S, U, A> Bootstrap<P, S, U, A> where
    P: Preconditions,
    S: SocketFactory,
    U: ConnectableUidProbe,
    A: RouterAssembler,
 {
    /// The calls so far.
    pub closed spec fn trace(&self) -> BootTrace {
        BootTrace {
            pre: self.pre.log(),
            assembled: self.assembler.log(),
            sockets: self.sockets.log(),
            sighted: self.probe.log(),
        }
    }

    /// What the boot acts on.
    pub closed spec fn parts(&self) -> (P, S, U, A) {
        (self.pre.part(), self.sockets.part(), self.probe.part(), self.assembler.part())
    }

    /// A boot over what it acts on, of which nothing was called yet.
    pub fn new(pre: P, sockets: S, probe: U, assembler: A) -> (boot: Self)
        ensures
            boot.parts() == (pre, sockets, probe, assembler),
            boot.trace() == (BootTrace {
                pre: Seq::empty(),
                assembled: Seq::empty(),
                sockets: Seq::empty(),
                sighted: Seq::empty(),
            }),
    {
        Self {
            pre: Witnessed::new(pre),
            sockets: Witnessed::new(sockets),
            probe: Witnessed::new(probe),
            assembler: Witnessed::new(assembler),
        }
    }

    /// Runs the boot sequence.
    pub fn run(&mut self) -> (result: Result<BootReport, BootError>)
        ensures
            final(self).parts() == old(self).parts(),
            match result {
                Ok(report) => {
                    &&& boot_course(old(self).trace(), final(self).trace(), None)
                    &&& report.executed@ == boot_order()
                    &&& report.data_plane_open
                    &&& report.data_plane_handles@ == data_handles()
                    &&& report.control_plane_handles@ == control_handles()
                },
                Err(err) => boot_course(old(self).trace(), final(self).trace(), Some(err.stage)),
            },
            final(self).trace().sighted.len() > old(self).trace().sighted.len() ==> can_report(
                old(self).parts().2,
                final(self).trace().sighted.last(),
            ),
    {
        let ghost before = self.trace();
        let mut report = BootReport::default();
        proof {
            assert(before.pre + succeeded(0) =~= before.pre);
            assert forall|i: int| 0 <= i < 4 implies #[trigger] succeeded(i + 1) == succeeded(
                i,
            ).push((boot_order()[i], None)) by {
                assert(succeeded(i + 1) =~= succeeded(i).push((boot_order()[i], None)));
            }
            assert(succeeded(1) == succeeded(0).push((boot_order()[0], None)));
            assert(succeeded(2) == succeeded(1).push((boot_order()[1], None)));
            assert(succeeded(3) == succeeded(2).push((boot_order()[2], None)));
            assert(succeeded(4) == succeeded(3).push((boot_order()[3], None)));
        }
        report.executed.push(BootStage::OpenDb);
        if let Err(e) = self.pre.open_db() {
            assert(boot_order()[0] == BootStage::OpenDb);
            assert(self.trace().pre == (before.pre + succeeded(0)).push(
                (BootStage::OpenDb, Some(e)),
            ));
            return Err(BootError::at(BootStage::OpenDb));
        }
        assert(self.trace().pre =~= before.pre + succeeded(1));
        report.executed.push(BootStage::Migrate);
        if let Err(e) = self.pre.migrate() {
            assert(boot_order()[1] == BootStage::Migrate);
            assert(self.trace().pre == (before.pre + succeeded(1)).push(
                (BootStage::Migrate, Some(e)),
            ));
            return Err(BootError::at(BootStage::Migrate));
        }
        assert(self.trace().pre =~= before.pre + succeeded(2));
        report.executed.push(BootStage::FirstSnapshot);
        if let Err(e) = self.pre.rebuild_first_snapshot() {
            assert(boot_order()[2] == BootStage::FirstSnapshot);
            assert(self.trace().pre == (before.pre + succeeded(2)).push(
                (BootStage::FirstSnapshot, Some(e)),
            ));
            return Err(BootError::at(BootStage::FirstSnapshot));
        }
        assert(self.trace().pre =~= before.pre + succeeded(3));
        report.executed.push(BootStage::UnlockVault);
        if let Err(e) = self.pre.unlock_vault() {
            assert(boot_order()[3] == BootStage::UnlockVault);
            assert(self.trace().pre == (before.pre + succeeded(3)).push(
                (BootStage::UnlockVault, Some(e)),
            ));
            return Err(BootError::at(BootStage::UnlockVault));
        }
        assert(self.trace().pre =~= before.pre + succeeded(4));
        report.executed.push(BootStage::RegisterPlugins);
        let data: [HandleKind; 4] = [
            HandleKind::PolicyView,
            HandleKind::ConnPool,
            HandleKind::Sanitizer,
            HandleKind::Registries,
        ];
        let control: [HandleKind; 1] = [HandleKind::PolicyRepo];
        assert(data@ =~= data_handles());
        assert(control@ =~= control_handles());
        if let Err(e) = self.assembler.assemble_data_plane(data.as_slice()) {
            assert(self.trace().assembled == before.assembled.push(
                (Plane::Data, data_handles(), Some(e)),
            ));
            return Err(BootError::at(BootStage::RegisterPlugins));
        }
        if let Err(e) = self.assembler.assemble_control_plane(control.as_slice()) {
            assert(self.trace().assembled == before.assembled.push(
                (Plane::Data, data_handles(), None),
            ).push((Plane::Control, control_handles(), Some(e))));
            return Err(BootError::at(BootStage::RegisterPlugins));
        }
        assert(self.trace().assembled =~= before.assembled + both_assembled());
        report.data_plane_handles.extend_from_slice(data.as_slice());
        report.control_plane_handles.extend_from_slice(control.as_slice());
        report.executed.push(BootStage::ControlSocket);
        if let Err(e) = self.sockets.create_control() {
            assert(self.trace().sockets == before.sockets.push(
                (BootStage::ControlSocket, Some(e)),
            ));
            return Err(BootError::at(BootStage::ControlSocket));
        }
        report.executed.push(BootStage::ConnectableUidSelfCheck);
        let (uid, connectable) = self.probe.sight();
        assert(self.trace().sighted.drop_last() =~= before.sighted);
        if !connectable_uid_check(uid, connectable.as_slice()).is_pass() {
            return Err(BootError::at(BootStage::ConnectableUidSelfCheck));
        }
        report.executed.push(BootStage::DataSocket);
        if let Err(e) = self.sockets.create_data() {
            assert(self.trace().sockets == before.sockets.push(
                (BootStage::ControlSocket, None),
            ).push((BootStage::DataSocket, Some(e))));
            return Err(BootError::at(BootStage::DataSocket));
        }
        report.data_plane_open = true;
        assert(report.executed@ =~= boot_order());
        assert(report.data_plane_handles@ =~= data_handles());
        assert(report.control_plane_handles@ =~= control_handles());
        Ok(report)
    }

    /// Gives back what the boot acted on.
    pub fn into_parts(self) -> (parts: (P, S, U, A))
        ensures
            parts == self.parts(),
    {
        (
            self.pre.into_part(),
            self.sockets.into_part(),
            self.probe.into_part(),
            self.assembler.into_part(),
        )
    }
}

/// The stage that a boot failure is shown under.
pub fn stage_of(stage: BootStage) -> (shown: Stage)
    ensures
        shown == match stage {
            BootStage::OpenDb => Stage::Audit,
            BootStage::Migrate => Stage::Audit,
            BootStage::FirstSnapshot => Stage::Rbac,
            BootStage::UnlockVault => Stage::Transport,
            BootStage::RegisterPlugins => Stage::Classify,
            BootStage::ControlSocket => Stage::Transport,
            BootStage::ConnectableUidSelfCheck => Stage::Transport,
            BootStage::DataSocket => Stage::Transport,
        },
{
    match stage {
        BootStage::OpenDb => Stage::Audit,
        BootStage::Migrate => Stage::Audit,
        BootStage::FirstSnapshot => Stage::Rbac,
        BootStage::UnlockVault => Stage::Transport,
        BootStage::RegisterPlugins => Stage::Classify,
        BootStage::ControlSocket => Stage::Transport,
        BootStage::ConnectableUidSelfCheck => Stage::Transport,
        BootStage::DataSocket => Stage::Transport,
    }
}

/// Before any attempt to create the data socket everything else succeeded: the
/// four preconditions, both routers, the control socket and the self-check.
pub proof fn data_socket_comes_last(
    before: BootTrace,
    after: BootTrace,
    failed: Option<BootStage>,
    i: int,
)
    requires
        boot_course(before, after, failed),
        before.sockets.len() <= i < after.sockets.len(),
        after.sockets[i].0 == BootStage::DataSocket,
    ensures
        after.pre == before.pre + succeeded(4),
        after.assembled == before.assembled + both_assembled(),
        checked(before.sighted, after.sighted, false),
        i == before.sockets.len() + 1,
        after.sockets[i - 1] == (BootStage::ControlSocket, None::<DaemonError>),
{
}

/// The write access to the policy never goes to the data plane.
pub proof fn data_plane_gets_no_policy_writes(
    before: BootTrace,
    after: BootTrace,
    failed: Option<BootStage>,
    i: int,
)
    requires
        boot_course(before, after, failed),
        before.assembled.len() <= i < after.assembled.len(),
        after.assembled[i].0 == Plane::Data,
    ensures
        !after.assembled[i].1.contains(HandleKind::PolicyRepo),
{
    assert(after.assembled[i].1 == data_handles());
    assert(!data_handles().contains(HandleKind::PolicyRepo));
}

/// A boot goes through eight steps: the database, its migration, the first snapshot, the
/// vault, the routers, the control socket, the self-check and the data socket.
pub proof fn boot_has_eight_steps()
    ensures
        boot_order().len() == 8,
        boot_order()[0] == BootStage::OpenDb,
        boot_order()[1] == BootStage::Migrate,
        boot_order()[2] == BootStage::FirstSnapshot,
        boot_order()[3] == BootStage::UnlockVault,
        boot_order()[4] == BootStage::RegisterPlugins,
        boot_order()[5] == BootStage::ControlSocket,
        boot_order()[6] == BootStage::ConnectableUidSelfCheck,
        boot_order()[7] == BootStage::DataSocket,
{
    let order = boot_order();
    assert(order[0] == BootStage::OpenDb);
    assert(order[1] == BootStage::Migrate);
    assert(order[2] == BootStage::FirstSnapshot);
    assert(order[3] == BootStage::UnlockVault);
    assert(order[4] == BootStage::RegisterPlugins);
    assert(order[5] == BootStage::ControlSocket);
    assert(order[6] == BootStage::ConnectableUidSelfCheck);
    assert(order[7] == BootStage::DataSocket);
}

/// The data plane reads the policy and has the connections, the exit filter and the
/// registries; to write the policy is for the control plane, which has nothing else.
pub proof fn planes_have_their_own_handles(handle: HandleKind)
    ensures
        data_handles().contains(handle) <==> handle != HandleKind::PolicyRepo,
        control_handles().contains(handle) <==> handle == HandleKind::PolicyRepo,
        data_handles().len() == 4,
        control_handles().len() == 1,
        data_handles() == seq![
            HandleKind::PolicyView,
            HandleKind::ConnPool,
            HandleKind::Sanitizer,
            HandleKind::Registries,
        ],
{
    let data = data_handles();
    assert(data[0] == HandleKind::PolicyView && data[1] == HandleKind::ConnPool && data[2]
        == HandleKind::Sanitizer && data[3] == HandleKind::Registries);
    assert(control_handles()[0] == HandleKind::PolicyRepo);
}

/// A boot that failed nowhere made every call once, in order and without a failure: the
/// four preconditions, both routers with their handles, and both sockets; and it found
/// the own uid not to be among those that could connect.
pub proof fn finished_boot_did_everything(before: BootTrace, after: BootTrace)
    requires
        boot_course(before, after, None),
    ensures
        after.pre == before.pre + seq![
            (BootStage::OpenDb, None::<DaemonError>),
            (BootStage::Migrate, None),
            (BootStage::FirstSnapshot, None),
            (BootStage::UnlockVault, None),
        ],
        after.assembled.len() == before.assembled.len() + 2,
        after.assembled[before.assembled.len() as int].0 == Plane::Data,
        after.assembled[before.assembled.len() as int].2 is None,
        after.assembled[(before.assembled.len() + 1) as int].0 == Plane::Control,
        after.assembled[(before.assembled.len() + 1) as int].2 is None,
        after.assembled[(before.assembled.len() + 1) as int].1 == seq![HandleKind::PolicyRepo],
        after.sockets == before.sockets + seq![
            (BootStage::ControlSocket, None::<DaemonError>),
            (BootStage::DataSocket, None),
        ],
        after.sighted.len() == before.sighted.len() + 1,
        !after.sighted[before.sighted.len() as int].1.contains(
            after.sighted[before.sighted.len() as int].0,
        ),
{
    boot_has_eight_steps();
    assert(succeeded(4) =~= seq![
        (BootStage::OpenDb, None::<DaemonError>),
        (BootStage::Migrate, None),
        (BootStage::FirstSnapshot, None),
        (BootStage::UnlockVault, None),
    ]);
}

/// A boot that failed at a step made no call behind it. Where a precondition failed, no
/// router was assembled, no socket made and no uid asked for; where a router failed, no
/// socket was made; where the control socket failed, no uid was asked for; and where the
/// own uid could connect, the data socket was not tried.
pub proof fn failed_step_is_the_last(before: BootTrace, after: BootTrace, failed: BootStage)
    requires
        boot_course(before, after, Some(failed)),
    ensures
        failed == BootStage::OpenDb ==> after.pre.len() == before.pre.len() + 1,
        failed == BootStage::Migrate ==> after.pre.len() == before.pre.len() + 2,
        failed == BootStage::FirstSnapshot ==> after.pre.len() == before.pre.len() + 3,
        failed == BootStage::UnlockVault ==> after.pre.len() == before.pre.len() + 4,
        failed == BootStage::OpenDb || failed == BootStage::Migrate || failed
            == BootStage::FirstSnapshot || failed == BootStage::UnlockVault ==> after.pre.last().0
            == failed && after.pre.last().1 is Some && after.assembled == before.assembled
            && after.sockets == before.sockets && after.sighted == before.sighted,
        failed == BootStage::RegisterPlugins ==> after.assembled.last().2 is Some && after.sockets
            == before.sockets && after.sighted == before.sighted,
        failed == BootStage::ControlSocket ==> after.sockets.last().1 is Some && after.sockets.len()
            == before.sockets.len() + 1 && after.sighted == before.sighted,
        failed == BootStage::ConnectableUidSelfCheck ==> after.sockets.len() == before.sockets.len()
            + 1 && after.sockets.last().0 == BootStage::ControlSocket
            && after.sighted.last().1.contains(after.sighted.last().0),
        failed == BootStage::DataSocket ==> after.sockets.len() == before.sockets.len() + 2
            && after.sockets.last().0 == BootStage::DataSocket && after.sockets.last().1 is Some,
{
    boot_has_eight_steps();
    if failed == BootStage::OpenDb || failed == BootStage::Migrate || failed
        == BootStage::FirstSnapshot || failed == BootStage::UnlockVault {
        let (i, e) = choose|i: int, e: DaemonError|
            0 <= i < 4 && #[trigger] boot_order()[i] == failed && after.pre == #[trigger] (before.pre
                + succeeded(i)).push((failed, Some(e)));
        assert(after.pre.len() == before.pre.len() + i + 1);
        assert(boot_order()[i] == failed);
    }
}

} // verus!
