//! From a finished boot to a serving process, or to an exit code.

use crate::boot::{BootError, BootReport, HandleKind};
use crate::error::DaemonError;
use crate::witness::{Spawn, Witnessed};
use vstd::prelude::*;

verus! {

/// The exit code of a process that served.
pub const EXIT_OK: u8 = 0;

/// The exit code of a process that did not come up.
pub const EXIT_BOOT_FAILED: u8 = 1;

/// What is spawned.
#[derive(Clone, Copy, Debug, PartialEq, Eq, Structural)]
pub enum Spawned {
    DataPlane,
    ControlPlane,
    Sweeper,
}

/// Spawns the parts of the process.
pub trait PlaneSpawner {
    /// Spawns the data plane.
    fn spawn_data_plane(&self, handles: &[HandleKind]) -> Result<(), DaemonError>;

    /// Spawns the control plane.
    fn spawn_control_plane(&self, handles: &[HandleKind]) -> Result<(), DaemonError>;

    /// Spawns the sweeper.
    fn spawn_sweeper(&self, handles: &[HandleKind]) -> Result<(), DaemonError>;
}

/// The exit code for the result of a boot.
pub fn boot_exit_code(result: &Result<BootReport, BootError>) -> (code: u8)
    ensures
        code == if result is Ok {
            EXIT_OK
        } else {
            EXIT_BOOT_FAILED
        },
{
    match result {
        Ok(_) => EXIT_OK,
        Err(_) => EXIT_BOOT_FAILED,
    }
}

/// The first `n` parts with the handles of a report, of which the last has come to
/// `failure`.
pub open spec fn spawns(report: BootReport, n: int, failure: Option<DaemonError>) -> Seq<Spawn> {
    let data = report.data_plane_handles@;
    let control = report.control_plane_handles@;
    if n == 1 {
        seq![(Spawned::DataPlane, data, failure)]
    } else if n == 2 {
        seq![(Spawned::DataPlane, data, None), (Spawned::ControlPlane, control, failure)]
    } else {
        seq![
            (Spawned::DataPlane, data, None),
            (Spawned::ControlPlane, control, None),
            (Spawned::Sweeper, control, failure),
        ]
    }
}

/// Spawns both planes and the sweeper with the handles of a report. Nothing is
/// spawned where the data plane is not open, and a failure is the last attempt.
pub fn serve_assembled<S: PlaneSpawner>(
    report: &BootReport,
    spawner: &mut Witnessed<S, Spawn>,
) -> (result: Result<(), DaemonError>)
    ensures
        final(spawner).part() == old(spawner).part(),
        if report.data_plane_open {
            match result {
                Ok(_) => final(spawner).log() == old(spawner).log() + spawns(
                    *report,
                    3,
                    None,
                ),
                Err(e) => exists|n: int|
                    1 <= n <= 3 && final(spawner).log() == old(spawner).log()
                        + #[trigger] spawns(*report, n, Some(e)),
            }
        } else {
            result == Err::<(), _>(DaemonError::Boot) && final(spawner).log() == old(
                spawner,
            ).log()
        },
{
    if !report.data_plane_open {
        return Err(DaemonError::Boot);
    }
    let ghost before = spawner.log();
    if let Err(e) = spawner.spawn_data_plane(report.data_plane_handles.as_slice()) {
        assert(spawner.log() =~= before + spawns(*report, 1, Some(e)));
        return Err(e);
    }
    if let Err(e) = spawner.spawn_control_plane(report.control_plane_handles.as_slice()) {
        assert(spawner.log() =~= before + spawns(*report, 2, Some(e)));
        return Err(e);
    }
    if let Err(e) = spawner.spawn_sweeper(report.control_plane_handles.as_slice()) {
        assert(spawner.log() =~= before + spawns(*report, 3, Some(e)));
        return Err(e);
    }
    assert(spawner.log() =~= before + spawns(*report, 3, None));
    Ok(())
}

/// Turns the result of a boot into a serving process and an exit code: the code of
/// success only where everything was spawned, and no attempt to spawn anything where
/// the boot failed.
pub fn run_assembled<S: PlaneSpawner>(
    result: Result<BootReport, BootError>,
    spawner: &mut Witnessed<S, Spawn>,
) -> (code: u8)
    ensures
        final(spawner).part() == old(spawner).part(),
        code == EXIT_OK || code == EXIT_BOOT_FAILED,
        match result {
            Ok(report) => if report.data_plane_open {
                &&& code == EXIT_OK ==> final(spawner).log() == old(spawner).log() + spawns(
                    report,
                    3,
                    None,
                )
                &&& code == EXIT_BOOT_FAILED ==> exists|n: int, e: DaemonError|
                    1 <= n <= 3 && final(spawner).log() == old(spawner).log()
                        + #[trigger] spawns(report, n, Some(e))
            } else {
                code == EXIT_BOOT_FAILED && final(spawner).log() == old(spawner).log()
            },
            Err(_) => code == EXIT_BOOT_FAILED && final(spawner).log() == old(
                spawner,
            ).log(),
        },
{
    let report = match result {
        Ok(report) => report,
        Err(err) => {
            return boot_exit_code(&Err(err));
        },
    };
    match serve_assembled(&report, spawner) {
        Ok(()) => EXIT_OK,
        Err(_) => EXIT_BOOT_FAILED,
    }
}

/// The data plane is spawned first, with the data plane's handles, then the control plane
/// and the sweeper with the control plane's. Of several attempts only the last can have
/// failed, and there are no more than three.
pub proof fn planes_are_spawned_in_order(
    report: BootReport,
    n: int,
    failure: Option<DaemonError>,
    i: int,
)
    requires
        1 <= n <= 3,
    ensures
        spawns(report, n, failure).len() == n,
        spawns(report, n, failure)[0].0 == Spawned::DataPlane,
        spawns(report, n, failure)[0].1 == report.data_plane_handles@,
        n >= 2 ==> spawns(report, n, failure)[1].0 == Spawned::ControlPlane && spawns(
            report,
            n,
            failure,
        )[1].1 == report.control_plane_handles@,
        n == 3 ==> spawns(report, n, failure)[2].0 == Spawned::Sweeper && spawns(
            report,
            n,
            failure,
        )[2].1 == report.control_plane_handles@,
        spawns(report, n, failure)[n - 1].2 == failure,
        0 <= i < n - 1 ==> spawns(report, n, failure)[i].2 is None,
{
}

/// A process that came up exits with zero, and one that did not with one.
pub proof fn exit_codes_tell_success()
    ensures
        EXIT_OK == 0,
        EXIT_BOOT_FAILED == 1,
{
}

} // verus!
