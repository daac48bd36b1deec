use postern_daemon::control::approvals::ApprovalQueue;
use postern_daemon::control::audit_read::{
    origin_text, AuditRecord, DenialRecord, OriginEnvelope,
};
use postern_daemon::control::auth::{
    authenticate, control_peer, operator_of_peer, reject, AuthReject, ControlAuth, PeerUid,
};
use postern_daemon::control::dto::{id_to_string, WriteAck};
use postern_daemon::control::endpoints::{
    advance_write, page_query, validate_import_on_timeout, validate_settings_on_timeout,
    write_expects, WriteAction, WriteHttp, WritePhase, WriteReply,
};
use postern_daemon::control::fields::{field_id, field_id_opt, field_str, field_str_opt, get, Field};
use postern_daemon::control::repo::{
    commit_write, list_settings, plan_elevation, plan_list, plan_write, project_page,
    settings_catalog, to_write_error, BindingRow, ConditionRow, ConstraintRow, DenyNoteRow,
    ListTarget, ModeStateRow, PrincipalRow, Project, ResourceRow, RoleRow, SettingRow, StoreWrite,
    TempGrantRow,
};
use postern_daemon::control::router::control_routes;
use postern_daemon::control::{
    Actor, ApprovalOutcome, PendingApproval, WriteError, WriteIntent, WriteOutcome,
};
use postern_daemon::domain::{ConnOrigin, Page, StoreError};
use postern_daemon::error::DaemonError;

fn text(s: &str) -> Field {
    Field::Text(s.to_string())
}

fn intent(
    entity: &'static str,
    fields: Vec<(&'static str, Field)>,
    expected_version: Option<i64>,
) -> WriteIntent {
    WriteIntent { entity, fields, expected_version }
}

#[test]
fn nothing_waits_while_approvals_are_off() {
    let mut queue = ApprovalQueue::new(false);
    let request = PendingApproval { principal: 1, resource: "r".to_string() };
    assert_eq!(queue.submit(request), ApprovalOutcome::Denied);
    assert_eq!(queue.pending_len(), 0);
    assert_eq!(queue.deny_all_on_restart(), 0);
}

#[test]
fn a_restart_refuses_all_that_waits() {
    let mut queue = ApprovalQueue::new(true);
    for principal in 0..3 {
        let request = PendingApproval { principal, resource: "r".to_string() };
        assert_eq!(queue.submit(request), ApprovalOutcome::Denied);
    }
    assert_eq!(queue.pending_len(), 3);
    assert_eq!(queue.deny_all_on_restart(), 3);
    assert_eq!(queue.pending_len(), 0);
}

#[test]
fn the_entry_needs_uid_and_token() {
    assert_eq!(authenticate(1, 1, true), Ok(()));
    assert_eq!(authenticate(1, 1, false), Err(AuthReject::MissingControlCredential));
    assert_eq!(authenticate(2, 1, true), Err(AuthReject::PeerUidMismatch));
    assert_eq!(authenticate(2, 1, false), Err(AuthReject::PeerUidMismatch));
}

#[test]
fn tokens_are_compared() {
    let auth = ControlAuth::new(7, Some(b"token".to_vec()));
    assert!(auth.credential_ok(b"token"));
    for bad in [&b"tokem"[..], b"toke", b"tokens", b"", b"Token"] {
        assert!(!auth.credential_ok(bad));
    }
    assert!(!ControlAuth::new(7, None).credential_ok(b"token"));
    assert!(!ControlAuth::new(7, Some(vec![])).credential_ok(b""));
}

#[test]
fn rulings_of_the_entry() {
    let auth = ControlAuth::new(7, Some(b"t".to_vec()));
    let own = Some(PeerUid(7));
    assert_eq!(auth.control_auth(own, "POST", "/v1/mode", Some(b"t")), Ok(()));
    assert_eq!(
        auth.control_auth(own, "POST", "/v1/mode", None),
        Err(AuthReject::MissingControlCredential)
    );
    assert_eq!(auth.control_auth(own, "GET", "/v1/health", None), Ok(()));
    assert_eq!(
        auth.control_auth(own, "POST", "/v1/health", None),
        Err(AuthReject::MissingControlCredential)
    );
    assert_eq!(
        auth.control_auth(Some(PeerUid(8)), "GET", "/v1/health", Some(b"t")),
        Err(AuthReject::PeerUidMismatch)
    );
    assert_eq!(
        auth.control_auth(None, "GET", "/v1/health", Some(b"t")),
        Err(AuthReject::PeerUidMismatch)
    );
}

#[test]
fn rejections_are_answered() {
    let e = reject(AuthReject::PeerUidMismatch);
    assert_eq!(e.status, 403);
    assert_eq!(e.body.error.code, "peer_uid_mismatch");
    let e = reject(AuthReject::MissingControlCredential);
    assert_eq!(e.status, 401);
    assert_eq!(e.body.error.code, "missing_control_credential");
    assert_eq!(e.body.error.message, "missing or invalid control credential");
}

#[test]
fn control_peers_are_local() {
    let peer = control_peer(Some(ConnOrigin::UnixPeer { uid: 12, gid: 3 })).unwrap();
    assert_eq!(peer.uid, PeerUid(12));
    assert!(matches!(peer.actor, Actor::Operator(ref id) if id == "uid:12"));
    assert!(matches!(peer.origin, ConnOrigin::UnixPeer { uid: 12, gid: 3 }));
    assert!(control_peer(Some(ConnOrigin::Tcp { remote: "a".to_string() })).is_none());
    assert!(control_peer(None).is_none());
    assert!(matches!(operator_of_peer(0), Actor::Operator(id) if id == "uid:0"));
}

#[test]
fn pages_are_kept_within_limits() {
    for (no, size, want_no, want_size) in [
        (None, None, 1, 20),
        (Some(0), Some(0), 1, 1),
        (Some(3), Some(200), 3, 200),
        (Some(3), Some(201), 3, 200),
    ] {
        let q = page_query(no, size);
        assert_eq!((q.page_no, q.page_size), (want_no, want_size));
    }
}

fn write_with(replies: &[WriteReply]) -> (WritePhase, Vec<WriteAction>) {
    let roles = intent("roles", vec![], None);
    let origin = ConnOrigin::UnixPeer { uid: 1, gid: 2 };
    let (mut phase, first) = postern_daemon::control::endpoints::write();
    let mut actions = vec![first];
    for reply in replies {
        assert!(write_expects(phase, reply));
        let (next, action) = advance_write(phase, *reply, &origin, &roles);
        phase = next;
        actions.push(action);
    }
    (phase, actions)
}

fn answered(actions: &[WriteAction]) -> WriteHttp {
    match actions.last() {
        Some(WriteAction::Leave(http)) => *http,
        _ => panic!("still under way"),
    }
}

fn commits(actions: &[WriteAction]) -> usize {
    actions.iter().filter(|a| matches!(a, WriteAction::Commit)).count()
}

fn decisions(actions: &[WriteAction]) -> Vec<(String, u64)> {
    actions
        .iter()
        .filter_map(|a| match a {
            WriteAction::Record { event } => Some((event.decision.clone(), event.policy_rev)),
            _ => None,
        })
        .collect()
}

#[test]
fn a_recorded_write_is_committed() {
    let outcome = WriteOutcome { version: 2, policy_rev: 9 };
    let (phase, actions) = write_with(&[
        WriteReply::Applied(Ok(outcome)),
        WriteReply::Recorded(true),
        WriteReply::Committed,
    ]);
    assert_eq!(phase, WritePhase::Done);
    assert!(matches!(actions[0], WriteAction::Apply));
    assert!(matches!(actions[2], WriteAction::Commit));
    assert_eq!(answered(&actions), WriteHttp::Committed(outcome));
    assert_eq!(answered(&actions).status(), 200);
    assert_eq!(decisions(&actions), vec![("allow".to_string(), 9)]);
}

#[test]
fn a_lost_record_leaves_nothing_behind() {
    let (_, actions) = write_with(&[
        WriteReply::Applied(Ok(WriteOutcome { version: 2, policy_rev: 9 })),
        WriteReply::Recorded(false),
        WriteReply::RolledBack,
    ]);
    assert_eq!(commits(&actions), 0);
    assert!(matches!(actions[2], WriteAction::RollBack));
    assert_eq!(answered(&actions), WriteHttp::Failed);
    assert_eq!(answered(&actions).status(), 500);
    assert_eq!(decisions(&actions).len(), 1);
}

#[test]
fn a_refused_write_leaves_one_record() {
    for (error, http, status) in [
        (WriteError::VersionConflict, WriteHttp::Conflict, 409),
        (WriteError::ResourceNotFound, WriteHttp::NotFound, 404),
        (WriteError::Transaction, WriteHttp::Failed, 500),
        (WriteError::SnapshotRebuild, WriteHttp::Failed, 500),
        (WriteError::Audit, WriteHttp::Failed, 500),
    ] {
        for recorded in [true, false] {
            let (_, actions) =
                write_with(&[WriteReply::Applied(Err(error)), WriteReply::Recorded(recorded)]);
            assert_eq!(answered(&actions), http);
            assert_eq!(answered(&actions).status(), status);
            assert_eq!(commits(&actions), 0);
            assert_eq!(decisions(&actions), vec![("deny".to_string(), 0)]);
        }
    }
    let (_, actions) = write_with(&[WriteReply::Applied(Err(WriteError::NotImplemented))]);
    assert_eq!(answered(&actions).status(), 501);
    assert!(decisions(&actions).is_empty());
}

#[test]
fn writes_leave_records() {
    let outcome = WriteOutcome { version: 2, policy_rev: 9 };
    let (_, actions) = write_with(&[WriteReply::Applied(Ok(outcome))]);
    match &actions[1] {
        WriteAction::Record { event } => {
            assert_eq!((event.kind.as_str(), event.entry.as_str()), ("policy_change", "control"));
            assert_eq!(event.resource, "roles");
            assert!(matches!(event.origin, ConnOrigin::UnixPeer { uid: 1, gid: 2 }));
        }
        _ => panic!("no record"),
    }
}

#[test]
fn timeouts_end_in_a_refusal() {
    assert_eq!(validate_settings_on_timeout("deny"), Ok(()));
    assert_eq!(validate_settings_on_timeout("allow"), Err(DaemonError::Boot));
    assert_eq!(validate_import_on_timeout("deny"), Ok(()));
    assert_eq!(validate_import_on_timeout(""), Err(DaemonError::Boot));
}

#[test]
fn fields_are_read() {
    let fields = vec![
        ("a", text("12")),
        ("b", Field::Null),
        ("c", Field::Int(3)),
        ("d", text("x")),
        ("a", text("13")),
    ];
    assert!(matches!(get(&fields, "c"), Some(Field::Int(3))));
    assert!(get(&fields, "z").is_none());
    assert_eq!(field_str(&fields, "a"), Ok("12".to_string()));
    assert_eq!(field_str(&fields, "b"), Err(StoreError::ConstraintViolation));
    assert_eq!(field_id(&fields, "a"), Ok(12));
    assert_eq!(field_id(&fields, "d"), Err(StoreError::ConstraintViolation));
    assert_eq!(field_id(&fields, "c"), Err(StoreError::ConstraintViolation));
    assert_eq!(field_str_opt(&fields, "b"), Ok(None));
    assert_eq!(field_str_opt(&fields, "z"), Ok(None));
    assert_eq!(field_str_opt(&fields, "d"), Ok(Some("x".to_string())));
    assert_eq!(field_str_opt(&fields, "c"), Err(StoreError::ConstraintViolation));
    assert_eq!(field_id_opt(&fields, "a"), Ok(Some(12)));
    assert_eq!(field_id_opt(&fields, "z"), Ok(None));
    assert_eq!(field_id_opt(&fields, "d"), Err(StoreError::ConstraintViolation));
}

#[test]
fn writes_become_calls_of_the_store() {
    let cases = [
        (
            intent("principals", vec![("name", text("n")), ("kind", text("k"))], None),
            "CreatePrincipal { name: \"n\", kind: \"k\" }",
        ),
        (
            intent("principals", vec![("id", text("4")), ("name", text("n"))], Some(2)),
            "RenamePrincipal { id: 4, expected: 2, name: \"n\" }",
        ),
        (
            intent("roles", vec![("name", text("n")), ("description", Field::Null)], None),
            "CreateRole { name: \"n\", description: None }",
        ),
        (
            intent("bindings", vec![("principal_id", text("1")), ("role_id", text("2"))], None),
            "CreateBinding { principal_id: 1, role_id: 2 }",
        ),
        (
            intent("constraints", vec![("id", text("1"))], Some(3)),
            "DeleteConstraint { id: 1, expected: 3 }",
        ),
        (
            intent("conditions", vec![("predicate", text("p"))], None),
            "CreateCondition { on_resource: None, on_capability: None, predicate: \"p\", spec: None }",
        ),
        (
            intent("conditions", vec![("id", text("1"))], Some(3)),
            "DeleteCondition { id: 1, expected: 3 }",
        ),
        (
            intent("deny_notes", vec![("id", text("1"))], Some(3)),
            "DeleteDenyNote { id: 1, expected: 3 }",
        ),
        (
            intent("mode", vec![("scope", Field::Null), ("mode", text("freeze"))], Some(1)),
            "SetMode { scope: None, mode: \"freeze\", expires_at: None }",
        ),
        (
            intent("settings", vec![("key", text("k")), ("value", text("v"))], None),
            "SetSetting { key: \"k\", value: \"v\" }",
        ),
        (
            intent("grants", vec![("op", text("revoke")), ("id", text("6"))], Some(1)),
            "RevokeGrant { id: 6, expected: 1 }",
        ),
        (
            intent(
                "grants",
                vec![("op", text("elevate")), ("principal", text("1")), ("resource", text("r"))],
                None,
            ),
            "FindResource { code: \"r\" }",
        ),
    ];
    for (intent, call) in cases {
        assert_eq!(format!("{:?}", plan_write(&intent).unwrap()), call);
    }
}

#[test]
fn incomplete_writes_fail() {
    for intent in [
        intent("principals", vec![("name", text("n"))], None),
        intent("principals", vec![("name", text("n"))], Some(1)),
        intent("resources", vec![("code", text("c"))], None),
        intent("bindings", vec![("principal_id", text("x")), ("role_id", text("2"))], None),
        intent("constraints", vec![("resource_id", text("1"))], None),
        intent("deny_notes", vec![], None),
        intent("grants", vec![], None),
        intent("grants", vec![("op", text("other"))], None),
        intent("grants", vec![("op", text("revoke")), ("id", text("6"))], None),
        intent("nothing", vec![], None),
    ] {
        assert_eq!(plan_write(&intent).unwrap_err(), WriteError::Transaction);
    }
}

#[test]
fn grants_are_given_for_a_time() {
    let make = |ttl: Field| {
        intent(
            "grants",
            vec![
                ("op", text("elevate")),
                ("principal", text("1")),
                ("resource", text("r")),
                ("capability", text("query")),
                ("ttl_ms", ttl),
            ],
            None,
        )
    };
    match plan_elevation(&make(Field::Int(60)), Ok(Some(7))).unwrap() {
        StoreWrite::ElevateGrant { principal_id, resource_id, capability, ttl_ms } => {
            assert_eq!((principal_id, resource_id, ttl_ms), (1, 7, 60));
            assert_eq!(capability, "query");
        }
        other => panic!("{:?}", other),
    }
    for ttl in [Field::Int(0), Field::Int(-5), Field::Null, text("60")] {
        assert_eq!(
            plan_elevation(&make(ttl), Ok(Some(7))).unwrap_err(),
            WriteError::Transaction
        );
    }
    assert_eq!(
        plan_elevation(&make(Field::Int(1)), Ok(None)).unwrap_err(),
        WriteError::ResourceNotFound
    );
    assert_eq!(
        plan_elevation(&make(Field::Int(1)), Err(StoreError::VersionConflict)).unwrap_err(),
        WriteError::VersionConflict
    );
}

#[test]
fn store_failures() {
    assert_eq!(to_write_error(StoreError::VersionConflict), WriteError::VersionConflict);
    for e in [
        StoreError::ConstraintViolation,
        StoreError::Io,
        StoreError::UnknownSchemaVersion,
        StoreError::IdGen,
    ] {
        assert_eq!(to_write_error(e), WriteError::Transaction);
    }
    assert_eq!(commit_write(Ok((3, 4))), Ok(WriteOutcome { version: 3, policy_rev: 4 }));
    assert_eq!(commit_write(Err(StoreError::Io)), Err(WriteError::Transaction));
    assert_eq!(WriteError::Audit.message(), "audit write failed");
    assert_eq!(WriteError::ResourceNotFound.message(), "resource not found");
}

#[test]
fn collections_are_known_by_name() {
    assert_eq!(plan_list("principals"), Ok(ListTarget::Principals));
    assert_eq!(plan_list("deny_notes"), Ok(ListTarget::DenyNotes));
    assert_eq!(plan_list("denials_summary"), Ok(ListTarget::DenialsSummary));
    assert_eq!(plan_list("credentials"), Err(DaemonError::Boot));
}

#[test]
fn rows_are_shown() {
    let page = Page {
        items: vec![PrincipalRow {
            id: u64::MAX,
            name: "n".to_string(),
            kind: "k".to_string(),
            version: 3,
        }],
        page_no: 2,
        page_size: 5,
        total: 6,
    };
    let shown = project_page(Ok(page)).unwrap();
    assert_eq!(shown.items[0].id, "18446744073709551615");
    assert_eq!((shown.items[0].name.as_str(), shown.items[0].version), ("n", 3));
    assert_eq!((shown.page_no, shown.page_size, shown.total), (2, 5, 6));
    let failed: Result<Page<PrincipalRow>, StoreError> = Err(StoreError::Io);
    assert_eq!(project_page(failed).err(), Some(DaemonError::Boot));

    let r = RoleRow { id: 1, name: "n".to_string(), description: None, version: 0 }.project();
    assert_eq!((r.id.as_str(), r.description), ("1", None));
    let r = ResourceRow {
        id: 1,
        codename: "c".to_string(),
        adapter: "a".to_string(),
        transport: "t".to_string(),
        version: 0,
    }
    .project();
    assert_eq!((r.code.as_str(), r.adapter.as_str(), r.transport.as_str()), ("c", "a", "t"));
    let r = BindingRow { id: 1, principal_id: 2, role_id: 3, version: 4 }.project();
    assert_eq!((r.principal_id.as_str(), r.role_id.as_str(), r.version), ("2", "3", 4));
    let r = ConstraintRow {
        id: 1,
        resource_id: 2,
        capability: "q".to_string(),
        kind: "k".to_string(),
        spec: Some("s".to_string()),
        version: 4,
    }
    .project();
    assert_eq!((r.resource.as_str(), r.spec), ("2", Some("s".to_string())));
    let r = ConditionRow {
        id: 1,
        resource_id: Some(2),
        capability: None,
        predicate: "p".to_string(),
        spec: None,
        version: 4,
    }
    .project();
    assert_eq!((r.resource, r.capability), (Some("2".to_string()), None));
    let r = DenyNoteRow {
        id: 1,
        resource_id: 2,
        capability: "q".to_string(),
        note: "n".to_string(),
        version: 4,
    }
    .project();
    assert_eq!((r.resource.as_str(), r.note.as_str()), ("2", "n"));
    let r = ModeStateRow {
        id: 1,
        scope_resource_id: None,
        mode: "freeze".to_string(),
        expires_at: None,
        version: 4,
    }
    .project();
    assert_eq!((r.scope, r.mode.as_str()), (None, "freeze"));
    let r = TempGrantRow {
        id: 1,
        principal_id: 2,
        resource_id: 3,
        capability: "q".to_string(),
        granted_at: "g".to_string(),
        expires_at: "e".to_string(),
        ended_at: None,
        end_reason: None,
        version: 4,
    }
    .project();
    assert_eq!((r.principal.as_str(), r.resource.as_str(), r.expires_at.as_str()), ("2", "3", "e"));
}

#[test]
fn settings_are_shown_with_their_defaults() {
    let stored = Page {
        items: vec![
            SettingRow { key: "audit.fsync".to_string(), value: "never".to_string(), version: 4 },
            SettingRow { key: "unknown".to_string(), value: "v".to_string(), version: 1 },
        ],
        page_no: 1,
        page_size: 200,
        total: 2,
    };
    let shown = list_settings(Ok(stored)).unwrap();
    let rows: Vec<(&str, &str, bool, i64)> =
        shown.items.iter().map(|s| (s.key.as_str(), s.value.as_str(), s.writable, s.version)).collect();
    assert_eq!(
        rows,
        vec![
            ("approval.enabled", "false", true, 0),
            ("approval.on_timeout", "deny", false, 0),
            ("audit.fsync", "never", true, 4),
            ("audit.retention_days", "30", true, 0),
            ("audit.exporter.otel.enabled", "false", true, 0),
        ]
    );
    assert_eq!((shown.page_no, shown.page_size, shown.total), (1, 5, 5));
    assert_eq!(list_settings(Err(StoreError::Io)).err(), Some(DaemonError::Boot));
    assert_eq!(settings_catalog()[3].kind, "int");
}

fn record(origin: OriginEnvelope, count: Option<u64>) -> AuditRecord {
    AuditRecord {
        id: "1-0".to_string(),
        v: 1,
        kind: "request".to_string(),
        ts: "t".to_string(),
        entry: "data".to_string(),
        origin,
        decision: "deny".to_string(),
        resource: "db".to_string(),
        policy_rev: 42,
        count,
    }
}

#[test]
fn audit_records_are_shown_without_addresses() {
    let dto = record(OriginEnvelope::UnixPeer { uid: 1000, gid: 20 }, None).project();
    assert_eq!((dto.origin.as_str(), dto.policy_rev.as_str()), ("unix:1000:20", "42"));
    assert_eq!((dto.id.as_str(), dto.decision.as_str()), ("1-0", "deny"));
    assert_eq!(origin_text(&OriginEnvelope::Tcp { remote: "10.0.0.1:5".to_string() }), "tcp");
}

#[test]
fn refusals_are_counted() {
    let origin = || OriginEnvelope::Tcp { remote: "r".to_string() };
    let one = DenialRecord(record(origin(), None)).project();
    assert_eq!((one.resource.as_str(), one.count, one.policy_rev.as_str()), ("db", 1, "42"));
    assert_eq!(DenialRecord(record(origin(), Some(7))).project().count, 7);
}

#[test]
fn acks_and_ids_are_text() {
    assert_eq!(id_to_string(0), "0");
    let ack = WriteAck::from_outcome(&WriteOutcome { version: 1, policy_rev: 1 << 60 });
    assert_eq!(ack.policy_rev, "1152921504606846976");
}

#[test]
fn routes_are_distinct() {
    let routes = control_routes();
    assert_eq!(routes.len(), 31);
    for (i, r) in routes.iter().enumerate() {
        assert!(!routes[..i].contains(r));
        assert!(r.1.starts_with("/v1/"));
    }
    assert!(routes.contains(&("POST", "/v1/verify")));
}
