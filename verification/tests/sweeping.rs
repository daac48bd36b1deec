use postern_daemon::control::Actor;
use postern_daemon::domain::{
    Capability, ConnOrigin, GrantAction, GrantCell, PolicySnapshot, PrincipalGrants,
};
use postern_daemon::error::DaemonError;
use postern_daemon::shells::http::HttpSubmit;
use postern_daemon::shells::mcp::{tools, McpToolCall};
use postern_daemon::shells::{invalid_request_egress, surface};
use postern_daemon::sweeper::{ExpiryClass, SweepReport, Sweeper, END_REASON_EXPIRED};

fn report(recycled: Vec<(ExpiryClass, usize)>, rebuilt: bool) -> SweepReport {
    SweepReport {
        actor: Actor::System,
        recycled,
        temp_grant_end_reason: END_REASON_EXPIRED,
        snapshot_rebuilt_in_critical_section: rebuilt,
        rebuilt_policy_rev: 9,
    }
}

#[test]
fn a_sweep_leaves_a_record_for_each_class() {
    let swept = report(vec![(ExpiryClass::ModeState, 2), (ExpiryClass::TempGrant, 1), (ExpiryClass::Credential, 0)], true);
    let mut tick = Sweeper::tick(Ok(swept)).unwrap();
    let mut kinds = vec![];
    while let Some(event) = tick.next_event() {
        assert_eq!(event.v, 1);
        assert_eq!(event.entry, "system");
        assert_eq!(event.decision, "expired");
        assert_eq!(event.policy_rev, 9);
        assert!(matches!(event.origin, ConnOrigin::UnixPeer { uid: 0, gid: 0 }));
        kinds.push(event.kind.clone());
        tick = tick.recorded(true).unwrap();
    }
    assert_eq!(kinds, vec!["policy_change", "mode_change"]);
    let done = tick.finish();
    assert_eq!(done.recycled_of(ExpiryClass::ModeState), 2);
    assert_eq!(done.recycled_of(ExpiryClass::ApprovalTimeout), 0);
}

#[test]
fn an_empty_sweep_leaves_none() {
    let tick = Sweeper::tick(Ok(report(vec![], true))).unwrap();
    assert!(tick.next_event().is_none());
    assert_eq!(tick.finish().rebuilt_policy_rev, 9);
}

#[test]
fn a_failed_sweep_leaves_none() {
    assert_eq!(Sweeper::tick(Err(DaemonError::Pool)).err(), Some(DaemonError::Pool));
    let unbuilt = report(vec![(ExpiryClass::TempGrant, 1)], false);
    assert_eq!(Sweeper::tick(Ok(unbuilt)).err(), Some(DaemonError::Boot));
}

#[test]
fn a_lost_record_fails_the_tick() {
    let tick = Sweeper::tick(Ok(report(vec![(ExpiryClass::TempGrant, 1)], true))).unwrap();
    assert!(tick.next_event().is_some());
    assert_eq!(tick.recorded(false).err(), Some(DaemonError::Boot));
}

#[test]
fn classes_and_their_kinds() {
    let kinds: Vec<&str> = ExpiryClass::all().iter().map(|c| c.audit_kind()).collect();
    assert_eq!(kinds, vec!["policy_change", "policy_change", "mode_change", "policy_change"]);
}

fn cell(resource: &str, capability: Capability, action: GrantAction) -> GrantCell {
    GrantCell { resource: resource.to_string(), capability, action, constraints: vec![] }
}

#[test]
fn the_surface_shows_what_is_allowed() {
    let snapshot = PolicySnapshot {
        policy_rev: 1,
        grants: vec![
            PrincipalGrants {
                principal: 1,
                cells: vec![
                    cell("a", Capability::Query, GrantAction::Allow),
                    cell("a", Capability::Mutate, GrantAction::Escalate),
                    cell("b", Capability::Observe, GrantAction::Allow),
                ],
            },
            PrincipalGrants { principal: 2, cells: vec![cell("c", Capability::Destroy, GrantAction::Allow)] },
        ],
    };
    let shown: Vec<(String, Capability)> =
        surface(&snapshot, 1).into_iter().map(|e| (e.resource, e.capability)).collect();
    assert_eq!(
        shown,
        vec![("a".to_string(), Capability::Query), ("b".to_string(), Capability::Observe)]
    );
    assert!(surface(&snapshot, 3).is_empty());
}

#[test]
fn both_entrances_bring_the_same() {
    let origin = ConnOrigin::UnixPeer { uid: 4, gid: 5 };
    let http = HttpSubmit {
        auth_kind: "k".to_string(),
        secret: vec![1],
        resource: "r".to_string(),
        intent: vec![2],
    }
    .normalize(origin.clone());
    let mcp = McpToolCall {
        tool: "postern_query".to_string(),
        auth_kind: "k".to_string(),
        secret: vec![1],
        resource: "r".to_string(),
        intent: vec![2],
    }
    .normalize(origin);
    assert_eq!(format!("{:?}", http), format!("{:?}", mcp));
    assert_eq!(http.presented.kind, "k");
    assert_eq!(http.presented.secret, vec![1]);
    assert_eq!(http.resource, "r");
    assert_eq!(http.intent, vec![2]);
    assert!(matches!(http.origin, ConnOrigin::UnixPeer { uid: 4, gid: 5 }));
}

#[test]
fn offered_tools() {
    assert_eq!(
        tools(),
        vec![
            "postern_grants",
            "postern_query",
            "observe",
            "mutate",
            "execute",
            "manage",
            "destroy",
            "postern_surface"
        ]
    );
    assert_eq!(invalid_request_egress(), b"invalid request".to_vec());
}
