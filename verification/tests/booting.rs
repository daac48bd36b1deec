use postern_daemon::assemble::{
    boot_exit_code, run_assembled, serve_assembled, PlaneSpawner, EXIT_BOOT_FAILED, EXIT_OK,
};
use postern_daemon::boot::probe::{RealUidProbe, UNKNOWN_UID};
use postern_daemon::boot::selfcheck::{connectable_uid_check, SelfCheck};
use postern_daemon::boot::sockets::{
    bind_addr_for, bind_then_secure_then_listen, control_perms, data_perms, resolve_gid,
    socket_group, SockPerms, SocketEffects,
};
use postern_daemon::boot::{
    check_data_handles, stage_of, BootError, BootReport, BootStage, Bootstrap, ConnectableUidProbe,
    HandleKind, Preconditions, RouterAssembler, SocketFactory,
};
use postern_daemon::domain::Stage;
use postern_daemon::error::DaemonError;
use postern_daemon::witness::Witnessed;
use std::cell::RefCell;
use std::rc::Rc;

#[derive(Clone)]
struct Log {
    entries: Rc<RefCell<Vec<&'static str>>>,
    fails: Option<&'static str>,
}

impl Log {
    fn new(fails: Option<&'static str>) -> Log {
        Log { entries: Rc::new(RefCell::new(vec![])), fails }
    }

    fn note(&self, what: &'static str) -> Result<(), DaemonError> {
        self.entries.borrow_mut().push(what);
        if self.fails == Some(what) {
            Err(DaemonError::Listener)
        } else {
            Ok(())
        }
    }

    fn all(&self) -> Vec<&'static str> {
        self.entries.borrow().clone()
    }
}

impl Preconditions for Log {
    fn open_db(&self) -> Result<(), DaemonError> {
        self.note("db")
    }
    fn migrate(&self) -> Result<(), DaemonError> {
        self.note("migrate")
    }
    fn rebuild_first_snapshot(&self) -> Result<(), DaemonError> {
        self.note("snapshot")
    }
    fn unlock_vault(&self) -> Result<(), DaemonError> {
        self.note("vault")
    }
}

impl SocketFactory for Log {
    fn create_control(&self) -> Result<(), DaemonError> {
        self.note("control socket")
    }
    fn create_data(&self) -> Result<(), DaemonError> {
        self.note("data socket")
    }
}

impl RouterAssembler for Log {
    fn assemble_data_plane(&self, handles: &[HandleKind]) -> Result<(), DaemonError> {
        check_data_handles(handles)?;
        self.note("data router")
    }
    fn assemble_control_plane(&self, handles: &[HandleKind]) -> Result<(), DaemonError> {
        assert_eq!(handles, &[HandleKind::PolicyRepo]);
        self.note("control router")
    }
}

impl PlaneSpawner for Log {
    fn spawn_data_plane(&self, handles: &[HandleKind]) -> Result<(), DaemonError> {
        assert!(!handles.contains(&HandleKind::PolicyRepo));
        self.note("data plane")
    }
    fn spawn_control_plane(&self, _: &[HandleKind]) -> Result<(), DaemonError> {
        self.note("control plane")
    }
    fn spawn_sweeper(&self, _: &[HandleKind]) -> Result<(), DaemonError> {
        self.note("sweeper")
    }
}

fn boot(fails: Option<&'static str>, uid: Option<u32>) -> (Log, Result<BootReport, BootError>) {
    let log = Log::new(fails);
    let probe = RealUidProbe::new(b"/s".to_vec(), uid);
    let mut boot = Bootstrap::new(log.clone(), log.clone(), probe, log.clone());
    let result = boot.run();
    (log, result)
}

const ORDER: [&str; 8] = [
    "db",
    "migrate",
    "snapshot",
    "vault",
    "data router",
    "control router",
    "control socket",
    "data socket",
];

#[test]
fn a_boot_goes_through_all_steps() {
    let (log, result) = boot(None, Some(5));
    let report = result.unwrap();
    assert_eq!(log.all(), ORDER.to_vec());
    assert!(report.data_plane_open);
    assert_eq!(
        report.executed,
        vec![
            BootStage::OpenDb,
            BootStage::Migrate,
            BootStage::FirstSnapshot,
            BootStage::UnlockVault,
            BootStage::RegisterPlugins,
            BootStage::ControlSocket,
            BootStage::ConnectableUidSelfCheck,
            BootStage::DataSocket,
        ]
    );
    assert_eq!(report.control_plane_handles, vec![HandleKind::PolicyRepo]);
    assert_eq!(
        report.data_plane_handles,
        vec![
            HandleKind::PolicyView,
            HandleKind::ConnPool,
            HandleKind::Sanitizer,
            HandleKind::Registries,
        ]
    );
}

#[test]
fn a_failed_step_is_the_last() {
    for (i, stage) in [
        BootStage::OpenDb,
        BootStage::Migrate,
        BootStage::FirstSnapshot,
        BootStage::UnlockVault,
        BootStage::RegisterPlugins,
        BootStage::RegisterPlugins,
        BootStage::ControlSocket,
        BootStage::DataSocket,
    ]
    .into_iter()
    .enumerate()
    {
        let (log, result) = boot(Some(ORDER[i]), Some(5));
        assert_eq!(result.unwrap_err(), BootError::at(stage));
        assert_eq!(log.all(), ORDER[..i + 1].to_vec());
    }
}

#[test]
fn an_unknown_uid_keeps_the_data_socket_closed() {
    let (log, result) = boot(None, None);
    assert_eq!(result.unwrap_err().stage, BootStage::ConnectableUidSelfCheck);
    assert_eq!(log.all(), ORDER[..7].to_vec());
    let probe = RealUidProbe::new(b"/s".to_vec(), None);
    assert_eq!(probe.self_uid(), UNKNOWN_UID);
    assert_eq!(probe.connectable_uids(), vec![UNKNOWN_UID]);
    assert_eq!(probe.data_sock(), b"/s");
}

#[test]
fn parts_are_given_back() {
    let log = Log::new(None);
    let boot = Bootstrap::new(log.clone(), log.clone(), RealUidProbe::new(b"/d".to_vec(), Some(1)), log.clone());
    let (_, _, probe, _) = boot.into_parts();
    assert_eq!(probe.data_sock(), b"/d");
}

#[test]
fn the_own_uid_may_not_connect() {
    assert_eq!(connectable_uid_check(5, &[1, 2]), SelfCheck::Pass);
    assert_eq!(connectable_uid_check(5, &[]), SelfCheck::Pass);
    assert_eq!(connectable_uid_check(5, &[1, 5]), SelfCheck::RefuseSameUid);
    assert!(SelfCheck::Pass.is_pass());
    assert!(!SelfCheck::RefuseSameUid.is_pass());
}

#[test]
fn data_handles_are_checked() {
    assert_eq!(check_data_handles(&[HandleKind::ConnPool]), Ok(()));
    assert_eq!(
        check_data_handles(&[HandleKind::ConnPool, HandleKind::PolicyRepo]),
        Err(DaemonError::Boot)
    );
}

#[test]
fn boot_failures_have_a_stage() {
    assert_eq!(stage_of(BootStage::OpenDb), Stage::Audit);
    assert_eq!(stage_of(BootStage::Migrate), Stage::Audit);
    assert_eq!(stage_of(BootStage::FirstSnapshot), Stage::Rbac);
    assert_eq!(stage_of(BootStage::UnlockVault), Stage::Transport);
    assert_eq!(stage_of(BootStage::RegisterPlugins), Stage::Classify);
    assert_eq!(stage_of(BootStage::DataSocket), Stage::Transport);
}

struct Steps {
    taken: RefCell<Vec<String>>,
    fails: Option<&'static str>,
}

impl Steps {
    fn take(&self, what: &str, shown: String) -> Result<(), DaemonError> {
        self.taken.borrow_mut().push(shown);
        if self.fails == Some(what) {
            Err(DaemonError::Listener)
        } else {
            Ok(())
        }
    }
}

impl SocketEffects for Steps {
    fn bind(&self) -> Result<(), DaemonError> {
        self.take("bind", "bind".to_string())
    }
    fn secure(&self, perms: SockPerms) -> Result<(), DaemonError> {
        self.take("secure", format!("secure {:o}", perms.mode))
    }
    fn listen(&self) -> Result<(), DaemonError> {
        self.take("listen", "listen".to_string())
    }
}

#[test]
fn sockets_listen_after_they_are_secured() {
    let mut steps = Witnessed::new(Steps { taken: RefCell::new(vec![]), fails: None });
    assert_eq!(bind_then_secure_then_listen(&mut steps, data_perms()), Ok(()));
    assert_eq!(steps.into_part().taken.into_inner(), vec!["bind", "secure 660", "listen"]);
    for (fails, n) in [("bind", 1), ("secure", 2), ("listen", 3)] {
        let mut steps = Witnessed::new(Steps { taken: RefCell::new(vec![]), fails: Some(fails) });
        assert_eq!(
            bind_then_secure_then_listen(&mut steps, control_perms()),
            Err(DaemonError::Listener)
        );
        assert_eq!(steps.into_part().taken.into_inner(), ["bind", "secure 600", "listen"][..n].to_vec());
    }
}

const GROUPS: &str = "root:x:0:\r\nwheel:x:10:a,b\npostern:x:977:agent\npostern:x:5:\n";

#[test]
fn groups_are_found() {
    assert_eq!(resolve_gid(GROUPS, "root"), Some(0));
    assert_eq!(resolve_gid(GROUPS, "wheel"), Some(10));
    assert_eq!(resolve_gid(GROUPS, "postern"), Some(977));
    assert_eq!(resolve_gid(GROUPS, "none"), None);
    assert_eq!(resolve_gid("", "root"), None);
    assert_eq!(resolve_gid("a:x:1", "a"), Some(1));
    assert_eq!(resolve_gid("a:x:one:", "a"), None);
    assert_eq!(resolve_gid("broken\nroot:x:0:", "root"), None);
}

#[test]
fn only_the_data_socket_gets_a_group() {
    assert_eq!(socket_group(data_perms(), Some("wheel"), Some(GROUPS)), Ok(Some(10)));
    assert_eq!(socket_group(data_perms(), Some("none"), Some(GROUPS)), Err(DaemonError::Listener));
    assert_eq!(socket_group(data_perms(), Some("wheel"), None), Err(DaemonError::Listener));
    assert_eq!(socket_group(data_perms(), None, None), Ok(None));
    assert_eq!(socket_group(control_perms(), Some("wheel"), Some(GROUPS)), Ok(None));
}

#[test]
fn loopback_addresses() {
    assert_eq!(bind_addr_for(true, None), "127.0.0.1:7879");
    assert_eq!(bind_addr_for(false, None), "127.0.0.1:7878");
    assert_eq!(bind_addr_for(true, Some("127.0.0.1:1".to_string())), "127.0.0.1:1");
}

#[test]
fn everything_is_spawned_in_order() {
    let (_, result) = boot(None, Some(5));
    let log = Log::new(None);
    assert_eq!(boot_exit_code(&result), EXIT_OK);
    assert_eq!(run_assembled(result, &mut Witnessed::new(log.clone())), EXIT_OK);
    assert_eq!(log.all(), vec!["data plane", "control plane", "sweeper"]);
}

#[test]
fn a_failed_spawn_is_the_last() {
    for (fails, n) in [("data plane", 1), ("control plane", 2), ("sweeper", 3)] {
        let (_, result) = boot(None, Some(5));
        let log = Log::new(Some(fails));
        assert_eq!(serve_assembled(&result.unwrap(), &mut Witnessed::new(log.clone())), Err(DaemonError::Listener));
        assert_eq!(log.all().len(), n);
    }
}

#[test]
fn a_failed_boot_spawns_nothing() {
    let log = Log::new(None);
    let failed: Result<BootReport, BootError> = Err(BootError::at(BootStage::Migrate));
    assert_eq!(boot_exit_code(&failed), EXIT_BOOT_FAILED);
    assert_eq!(run_assembled(failed, &mut Witnessed::new(log.clone())), EXIT_BOOT_FAILED);
    assert_eq!(run_assembled(Ok(BootReport::default()), &mut Witnessed::new(log.clone())), EXIT_BOOT_FAILED);
    assert!(log.all().is_empty());
}
