use postern_daemon::control::dto::{
    BindingDto, CreateBindingReq, CreatePrincipalReq, CreateResourceReq, CreateRoleReq, HttpError,
    PrincipalDto, SettingDto, WriteConditionReq, WriteConstraintReq, WriteDenyNoteReq,
};
use postern_daemon::control::endpoints::WriteHttp;
use postern_daemon::control::fields::Field;
use postern_daemon::control::handlers::bindings::{binding_dto, create_binding, list_bindings};
use postern_daemon::control::handlers::misc::{
    approvals, create_condition, create_constraint, create_credential, create_deny_note,
    export_policy, import_policy, list_credentials, list_settings, settings_page, shutdown,
    write_settings, ApprovalsReq, ImportReq, WriteSettingsReq,
};
use postern_daemon::control::handlers::mode_grants::{
    commit_response, current_rev, elevate_grant, grants_view, mode, mode_set_response, mode_to_str,
    parse_mode, project_mode_rows, revoke_grant, ElevateRequest, GrantFields, ModeFields, ModePlan,
    ModeRequest, RevokeRequest,
};
use postern_daemon::control::handlers::principals::{create_principal, list_principals};
use postern_daemon::control::handlers::resources::{create_resource, discover_resource};
use postern_daemon::control::handlers::roles::{create_role, role_dto};
use postern_daemon::control::handlers::{
    misc, not_implemented_response, principals, resolve_actor, resolve_origin, resources, roles,
    PageParams, WritePlan,
};
use postern_daemon::control::repo::{plan_write, StoreWrite};
use postern_daemon::control::{Actor, WriteOutcome};
use postern_daemon::domain::{ConnOrigin, Mode, Page};
use postern_daemon::error::DaemonError;

fn unix(uid: u32) -> Option<ConnOrigin> {
    Some(ConnOrigin::UnixPeer { uid, gid: 0 })
}

fn operator() -> Option<Actor> {
    Some(Actor::Operator("op".to_string()))
}

fn some(s: &str) -> Option<String> {
    Some(s.to_string())
}

fn error(e: &HttpError) -> (u16, &str, &str) {
    (e.status, e.body.error.code.as_str(), e.body.error.message.as_str())
}

fn operator_id(plan: &WritePlan) -> &str {
    match &plan.actor {
        Actor::Operator(id) => id.as_str(),
        Actor::System => "system",
    }
}

fn page<T>(items: Vec<T>) -> Page<T> {
    Page { items, page_no: 1, page_size: 20, total: 0 }
}

#[test]
fn missing_capabilities_are_told() {
    let want = (501, "not_implemented", "control capability is not enabled yet");
    assert_eq!(error(&not_implemented_response()), want);
    assert_eq!(error(&list_credentials()), want);
    assert_eq!(error(&shutdown()), want);
    assert_eq!(error(&create_credential()).1, "credentials_not_enabled");
    assert_eq!(error(&discover_resource()).1, "discover_not_enabled");
}

#[test]
fn origins_and_actors_of_writes() {
    assert!(matches!(resolve_origin(unix(1), unix(2), "f"), Ok(ConnOrigin::UnixPeer { uid: 1, .. })));
    assert!(matches!(resolve_origin(None, unix(2), "f"), Ok(ConnOrigin::UnixPeer { uid: 2, .. })));
    assert_eq!(error(&resolve_origin(None, None, "f").unwrap_err()), (500, "write_failed", "f"));
    assert!(matches!(resolve_actor(None), Actor::Operator(id) if id == "control"));
    assert!(matches!(resolve_actor(Some(Actor::System)), Actor::System));
}

#[test]
fn page_parameters() {
    let q = PageParams::default().to_query();
    assert_eq!((q.page_no, q.page_size), (1, 20));
    let q = PageParams { page_no: Some(4), page_size: Some(1000) }.to_query();
    assert_eq!((q.page_no, q.page_size), (4, 200));
}

#[test]
fn answers_to_writes() {
    let done = WriteHttp::Committed(WriteOutcome { version: 1, policy_rev: 8 });
    assert_eq!(principals::write_response(done).unwrap().policy_rev, "8");
    assert_eq!(
        error(&principals::write_response(WriteHttp::Conflict).unwrap_err()),
        (409, "version_conflict", "the resource was modified concurrently; reload and retry")
    );
    assert_eq!(
        error(&roles::write_response(WriteHttp::Failed).unwrap_err()),
        (500, "write_failed", "failed to write policy")
    );
    assert_eq!(
        error(&resources::write_response(WriteHttp::NotFound).unwrap_err()),
        (404, "not_found", "referenced resource not found")
    );
    assert_eq!(
        error(&misc::write_response(WriteHttp::Conflict).unwrap_err()),
        (409, "version_conflict", "stale optimistic-lock version")
    );
    assert_eq!(error(&commit_response(WriteHttp::NotImplemented).unwrap_err()).0, 501);
    assert_eq!(
        error(&commit_response(WriteHttp::Conflict).unwrap_err()),
        (409, "version_conflict", "version conflict")
    );
}

#[test]
fn answers_to_reads() {
    let one = PrincipalDto { id: "1".to_string(), name: "n".to_string(), kind: "k".to_string(), version: 0 };
    assert_eq!(list_principals(Ok(page(vec![one]))).unwrap().items[0].name, "n");
    assert_eq!(
        error(&list_principals(Err(DaemonError::NotImplemented)).unwrap_err()),
        (500, "list_failed", "failed to read principals")
    );
    let read: Result<Page<BindingDto>, DaemonError> = Err(DaemonError::NotImplemented);
    assert_eq!(error(&list_bindings(read).unwrap_err()).0, 501);
    let read: Result<Page<BindingDto>, DaemonError> = Err(DaemonError::Boot);
    assert_eq!(
        error(&list_bindings(read).unwrap_err()),
        (500, "read_failed", "failed to read policy")
    );
    let read: Result<Page<SettingDto>, DaemonError> = Err(DaemonError::Boot);
    assert_eq!(
        error(&list_settings(read).unwrap_err()),
        (500, "read_failed", "settings read failed")
    );
    assert!(list_settings(Ok(page(vec![]))).unwrap().is_empty());
    assert_eq!(settings_page().page_size, 200);
}

#[test]
fn creations_are_stored() {
    let plan = create_principal(
        unix(3),
        None,
        operator(),
        CreatePrincipalReq { name: "n".to_string(), kind: "agent".to_string() },
    )
    .unwrap();
    assert_eq!(operator_id(&plan), "op");
    assert!(matches!(
        plan_write(&plan.intent),
        Ok(StoreWrite::CreatePrincipal { name, kind }) if name == "n" && kind == "agent"
    ));
    let plan = create_role(None, unix(3), None, CreateRoleReq { name: "n".to_string(), description: some("d") })
        .unwrap();
    assert_eq!(operator_id(&plan), "control");
    assert!(matches!(
        plan_write(&plan.intent),
        Ok(StoreWrite::CreateRole { name, description: Some(d) }) if name == "n" && d == "d"
    ));
    let plan = create_binding(
        unix(3),
        None,
        None,
        CreateBindingReq { principal_id: "1".to_string(), role_id: "2".to_string() },
    )
    .unwrap();
    assert!(matches!(
        plan_write(&plan.intent),
        Ok(StoreWrite::CreateBinding { principal_id: 1, role_id: 2 })
    ));
    let plan = create_resource(CreateResourceReq {
        code: "c".to_string(),
        adapter: "a".to_string(),
        transport: "t".to_string(),
    });
    assert!(matches!(
        plan_write(&plan.intent),
        Ok(StoreWrite::CreateResource { code, adapter, transport })
            if code == "c" && adapter == "a" && transport == "t"
    ));
    let body = CreateRoleReq { name: "n".to_string(), description: None };
    assert_eq!(
        error(&create_role(None, None, None, body).unwrap_err()),
        (500, "write_failed", "failed to write policy")
    );
}

#[test]
fn rules_are_stored_and_deleted() {
    let plan = create_constraint(WriteConstraintReq {
        resource_id: some("5"),
        capability: some("query"),
        kind: some("mask"),
        spec: None,
        id: None,
        expected_version: None,
    });
    assert!(matches!(
        plan_write(&plan.intent),
        Ok(StoreWrite::CreateConstraint { resource_id: 5, spec: None, .. })
    ));
    let plan = create_condition(WriteConditionReq {
        resource_id: None,
        capability: None,
        predicate: None,
        spec: None,
        id: some("9"),
        expected_version: Some(2),
    });
    assert!(matches!(
        plan_write(&plan.intent),
        Ok(StoreWrite::DeleteCondition { id: 9, expected: 2 })
    ));
    let plan = create_deny_note(WriteDenyNoteReq {
        resource_id: some("5"),
        capability: some("query"),
        note: some("why"),
        id: None,
        expected_version: None,
    });
    assert!(matches!(
        plan_write(&plan.intent),
        Ok(StoreWrite::CreateDenyNote { resource_id: 5, note, .. }) if note == "why"
    ));
}

#[test]
fn settings_cannot_loosen_the_timeout() {
    let body = |key: &str, value: &str, on_timeout: Option<&str>| WriteSettingsReq {
        key: key.to_string(),
        value: value.to_string(),
        on_timeout: on_timeout.map(|s| s.to_string()),
        expected_version: None,
    };
    assert!(write_settings(body("audit.fsync", "always", None)).is_ok());
    assert!(write_settings(body("audit.fsync", "always", Some("deny"))).is_ok());
    assert!(write_settings(body("approval.on_timeout", "deny", None)).is_ok());
    for bad in [
        body("audit.fsync", "always", Some("allow")),
        body("approval.on_timeout", "allow", None),
    ] {
        assert_eq!(error(&write_settings(bad).unwrap_err()).1, "on_timeout_allow_rejected");
    }
}

#[test]
fn approvals_are_off() {
    assert_eq!(approvals(None).unwrap().total, 0);
    assert_eq!(approvals(Some(ApprovalsReq { op: some("list") })).unwrap().page_size, 20);
    assert_eq!(
        error(&approvals(Some(ApprovalsReq { op: some("adjudicate") })).unwrap_err()).1,
        "approvals_disabled"
    );
}

#[test]
fn import_and_export() {
    assert_eq!(export_policy(), "");
    let report = import_policy(None).unwrap();
    assert!(report.applied);
    assert_eq!((report.added, report.changed, report.deleted), (0, 0, 0));
    assert!(import_policy(Some(ImportReq { on_timeout: some("deny") })).is_ok());
    let e = import_policy(Some(ImportReq { on_timeout: some("allow") })).unwrap_err();
    assert_eq!(error(&e).0, 400);
}

fn request(op: &str, mode: Option<&str>, ttl_ms: Option<i64>, version: Option<i64>) -> ModeRequest {
    ModeRequest { op: op.to_string(), scope: None, mode: mode.map(|s| s.to_string()), ttl_ms, version }
}

#[test]
fn modes_are_read_and_set() {
    assert!(matches!(mode(None, None, request("read", None, None, None), None), Ok(ModePlan::Read)));
    match mode(unix(1), operator(), request("set", Some("freeze"), Some(5), Some(3)), some("T")) {
        Ok(ModePlan::Write(plan)) => {
            assert_eq!(plan.intent.expected_version, Some(3));
            assert!(matches!(
                plan_write(&plan.intent),
                Ok(StoreWrite::SetMode { scope: None, mode, expires_at: Some(t) })
                    if mode == "freeze" && t == "T"
            ));
        }
        other => panic!("{:?}", other),
    }
    let endless = mode(unix(1), operator(), request("set", Some("freeze"), Some(5), Some(3)), None);
    assert_eq!(error(&endless.unwrap_err()).2, "control write context missing");
    match mode(unix(1), operator(), request("set", Some("freeze"), None, Some(3)), some("T")) {
        Ok(ModePlan::Write(plan)) => assert!(matches!(
            plan_write(&plan.intent),
            Ok(StoreWrite::SetMode { expires_at: None, .. })
        )),
        other => panic!("{:?}", other),
    }
    for (origin, actor, body, message) in [
        (unix(1), operator(), request("set", None, None, Some(3)), "mode set requires mode and version"),
        (unix(1), operator(), request("set", Some("freeze"), None, None), "mode set requires mode and version"),
        (None, operator(), request("set", Some("freeze"), None, Some(1)), "control write context missing"),
        (unix(1), None, request("set", Some("freeze"), None, Some(1)), "control write context missing"),
        (unix(1), operator(), request("other", None, None, None), "unknown mode op"),
    ] {
        assert_eq!(error(&mode(origin, actor, body, None).unwrap_err()).2, message);
    }
}

fn mode_row(scope: Field, word: &str) -> ModeFields {
    ModeFields {
        scope: Some(scope),
        mode: Some(Field::Text(word.to_string())),
        expires_at: None,
        version: Some(Field::Int(2)),
        updated_at: None,
        updated_by: Some(Field::Text("op".to_string())),
    }
}

#[test]
fn effective_modes_meet_the_global_one() {
    let rows = vec![
        mode_row(Field::Text("5".to_string()), "normal"),
        mode_row(Field::Null, "observe"),
        mode_row(Field::Text("6".to_string()), "nonsense"),
    ];
    let asked = std::cell::RefCell::new(vec![]);
    let views = project_mode_rows(&rows, "12", |a, b| {
        asked.borrow_mut().push((a, b));
        Mode::Freeze
    });
    let shown: Vec<(&str, &str)> =
        views.iter().map(|v| (v.mode.as_str(), v.effective_mode)).collect();
    assert_eq!(shown, vec![("normal", "freeze"), ("observe", "observe"), ("nonsense", "freeze")]);
    assert_eq!(*asked.borrow(), vec![(Mode::Observe, Mode::Normal), (Mode::Observe, Mode::Normal)]);
    assert_eq!((views[0].version, views[0].policy_rev.as_str()), (2, "12"));
    assert!(matches!(views[0].expires_at, Field::Null));
}

#[test]
fn mode_words() {
    for m in [Mode::Normal, Mode::Observe, Mode::Maintain, Mode::Freeze] {
        assert_eq!(parse_mode(mode_to_str(m)), Some(m));
    }
    assert_eq!(parse_mode("Freeze"), None);
}

#[test]
fn a_set_mode_is_acknowledged() {
    let done = WriteHttp::Committed(WriteOutcome { version: 1, policy_rev: 8 });
    let ack = mode_set_response(done, None).unwrap();
    assert_eq!((ack.policy_rev.as_str(), ack.rows.len()), ("8", 0));
    assert_eq!(error(&mode_set_response(WriteHttp::Failed, None).unwrap_err()).2, "policy write failed");
    assert_eq!(current_rev(Ok(31)), "31");
    assert_eq!(current_rev(Err(DaemonError::Boot)), "0");
}

#[test]
fn elevations_have_an_end() {
    let body = |ttl_ms: i64| ElevateRequest {
        principal: "1".to_string(),
        resource: "db".to_string(),
        capability: "query".to_string(),
        ttl_ms,
    };
    let plan = elevate_grant(unix(1), operator(), body(5)).unwrap();
    assert!(matches!(plan_write(&plan.intent), Ok(StoreWrite::FindResource { code }) if code == "db"));
    for ttl in [0, -1] {
        assert_eq!(
            error(&elevate_grant(unix(1), operator(), body(ttl)).unwrap_err()),
            (400, "bad_request", "elevate requires positive ttl_ms")
        );
    }
    assert_eq!(error(&elevate_grant(None, operator(), body(5)).unwrap_err()).0, 500);
}

#[test]
fn grants_are_taken_back() {
    let plan =
        revoke_grant(unix(1), operator(), RevokeRequest { id: "4".to_string(), version: 2 }).unwrap();
    assert!(matches!(
        plan_write(&plan.intent),
        Ok(StoreWrite::RevokeGrant { id: 4, expected: 2 })
    ));
    let e = revoke_grant(unix(1), None, RevokeRequest { id: "4".to_string(), version: 2 }).unwrap_err();
    assert_eq!(error(&e), (500, "write_failed", "control write context missing"));
}

#[test]
fn grants_for_a_time_are_shown() {
    let row = |id: Option<Field>| GrantFields {
        id,
        resource: Some(Field::Text("3".to_string())),
        capability: None,
        granted_at: None,
        expires_at: None,
        ended_at: None,
        end_reason: Some(Field::Null),
        version: None,
    };
    let rows = vec![row(Some(Field::Int(12))), row(Some(Field::Text("7".to_string()))), row(None)];
    let view = grants_view(Ok(rows)).unwrap();
    let ids: Vec<&str> = view.temp_grants.iter().map(|g| g.id.as_str()).collect();
    assert_eq!(ids, vec!["12", "7", ""]);
    assert!(view.your_grants.is_empty());
    assert_eq!(view.temp_grants[0].version, 0);
    assert_eq!(error(&grants_view(Err(DaemonError::Boot)).unwrap_err()).2, "policy read failed");
    assert_eq!(error(&grants_view(Err(DaemonError::NotImplemented)).unwrap_err()).0, 501);
}

#[test]
fn roles_and_bindings_as_text() {
    let dto = role_dto(5, "n".to_string(), None, 1);
    assert_eq!((dto.id.as_str(), dto.name.as_str(), dto.version), ("5", "n", 1));
    let dto = binding_dto(1, 2, 3, 4);
    assert_eq!((dto.id.as_str(), dto.principal_id.as_str(), dto.role_id.as_str()), ("1", "2", "3"));
}
