use postern_daemon::domain::{
    AuditError, AuthError, Capability, ClassifiedIntent, ConnOrigin, Decision, EvalTrace, GrantAction,
    GrantCell, NormalizedRequest, PolicySnapshot, PresentedCredential, PrincipalGrants, Stage,
    TraceStep,
};
use postern_daemon::error::{
    deny_stage, DaemonError, DowngradeEnvelope, DownstreamError, OutcomeDegraded,
    OUTCOME_DOWNGRADED_CODE,
};
use postern_daemon::kernel::audit_phase::{AuditClass, AuditPhase};
use postern_daemon::kernel::pipeline::{
    deny_reason, downgraded_egress, escalated, refusal_egress, Action, Answer, ConstraintReply,
    Kernel, Mark, Phase, Reply, Submission,
};
use postern_daemon::registry::AdapterRegistry;

fn cell(resource: &str, capability: Capability, constraints: &[&str]) -> GrantCell {
    GrantCell {
        resource: resource.to_string(),
        capability,
        action: GrantAction::Allow,
        constraints: constraints.iter().map(|s| s.to_string()).collect(),
    }
}

fn policy() -> PolicySnapshot {
    PolicySnapshot {
        policy_rev: 42,
        grants: vec![
            PrincipalGrants { principal: 1, cells: vec![] },
            PrincipalGrants {
                principal: 2,
                cells: vec![
                    cell("cache", Capability::Query, &["x"]),
                    cell("db", Capability::Query, &["a", "b"]),
                ],
            },
            PrincipalGrants { principal: 3, cells: vec![cell("db", Capability::Query, &["c"])] },
        ],
    }
}

fn kernel() -> Kernel<&'static str> {
    let adapters = AdapterRegistry::new(vec![
        ("postgres".to_string(), "pg"),
        ("http".to_string(), "web"),
    ]);
    Kernel::new(adapters, policy())
}

fn request() -> NormalizedRequest {
    NormalizedRequest {
        presented: PresentedCredential { kind: "api_key".to_string(), secret: vec![] },
        origin: ConnOrigin::UnixPeer { uid: 7, gid: 8 },
        resource: "db".to_string(),
        intent: vec![],
    }
}

fn classified(capability: Capability) -> Reply {
    Reply::Classified(Some(ClassifiedIntent { capability, objects: vec!["t".to_string()] }))
}

fn allowed() -> Reply {
    Reply::Evaluated {
        decision: Decision::Allow { resource: "db".to_string(), tier: "ro".to_string() },
        trace: EvalTrace { steps: vec![] },
    }
}

fn refused(steps: Vec<(Stage, &str)>) -> Reply {
    Reply::Evaluated {
        decision: Decision::Deny,
        trace: EvalTrace {
            steps: steps
                .into_iter()
                .map(|(stage, detail)| TraceStep { stage, detail: detail.to_string() })
                .collect(),
        },
    }
}

fn drive(replies: Vec<Reply>) -> (Submission, Vec<Action>) {
    let k = kernel();
    let r = request();
    let (mut s, first) = k.submit();
    let mut actions = vec![first];
    for reply in replies {
        assert!(s.expects(&reply));
        actions.push(k.advance(&r, &mut s, reply));
    }
    (s, actions)
}

fn executions(actions: &[Action]) -> usize {
    actions.iter().filter(|a| matches!(a, Action::Execute)).count()
}

fn marks(actions: &[Action]) -> Vec<(Mark, String)> {
    actions
        .iter()
        .filter_map(|a| match a {
            Action::Record { mark, event } => Some((*mark, event.decision.clone())),
            _ => None,
        })
        .collect()
}

fn response(actions: &[Action]) -> Vec<u8> {
    match actions.last() {
        Some(Action::Leave(Answer::Response(bytes))) => bytes.clone(),
        _ => panic!("no response"),
    }
}

fn refused_at(actions: &[Action]) -> Stage {
    match actions.last() {
        Some(Action::Leave(Answer::Refusal { stage })) => *stage,
        _ => panic!("no refusal"),
    }
}

fn filtered(actions: &[Action]) -> Vec<Vec<u8>> {
    actions
        .iter()
        .filter_map(|a| match a {
            Action::Scrub { payload } => Some(payload.clone()),
            _ => None,
        })
        .collect()
}

fn executed() -> Reply {
    Reply::Executed(Some(vec![1, 2, 3]))
}

fn assembled() -> Reply {
    Reply::Assembled(Some(vec![4, 5]))
}

fn scrubbed(bytes: &[u8]) -> Reply {
    Reply::Scrubbed(bytes.to_vec())
}

#[test]
fn the_first_adapter_interprets_requests() {
    assert_eq!(kernel().adapter_for_request(), Some(&"web"));
}

#[test]
fn a_read_leaves_one_record_after_it_ran() {
    let (s, actions) = drive(vec![
        classified(Capability::Observe),
        allowed(),
        Reply::Acquired(true),
        executed(),
        scrubbed(&[7]),
        Reply::Recorded(Ok(())),
    ]);
    assert_eq!(s.phase(), Phase::Done);
    assert_eq!(marks(&actions), vec![(Mark::Read, "allow".to_string())]);
    assert_eq!(filtered(&actions), vec![vec![1, 2, 3]]);
    assert_eq!(response(&actions), vec![7]);
}

#[test]
fn constraints_of_the_first_cell_are_checked_in_order() {
    let (_, actions) = drive(vec![
        classified(Capability::Query),
        Reply::Constraint(ConstraintReply::Met),
        Reply::Constraint(ConstraintReply::Met),
    ]);
    let specs: Vec<&str> = actions
        .iter()
        .filter_map(|a| match a {
            Action::CheckConstraint { spec } => Some(spec.as_str()),
            _ => None,
        })
        .collect();
    assert_eq!(specs, vec!["a", "b"]);
    assert!(matches!(actions.last(), Some(Action::Evaluate { passed: true })));
}

#[test]
fn an_unmet_constraint_goes_on_to_the_policy() {
    let (_, actions) =
        drive(vec![classified(Capability::Query), Reply::Constraint(ConstraintReply::Unmet)]);
    assert!(matches!(actions.last(), Some(Action::Evaluate { passed: false })));
}

#[test]
fn a_constraint_that_cannot_be_checked_refuses() {
    let (_, actions) = drive(vec![
        classified(Capability::Query),
        Reply::Constraint(ConstraintReply::Failed),
        assembled(),
        scrubbed(&[6]),
        Reply::Recorded(Err(AuditError::WriteFailed)),
    ]);
    assert_eq!(refused_at(&actions), Stage::Constraint);
}

#[test]
fn effects_are_recorded_before_and_after() {
    let (_, actions) = drive(vec![
        classified(Capability::Mutate),
        allowed(),
        Reply::Acquired(true),
        Reply::Recorded(Ok(())),
        executed(),
        scrubbed(&[7]),
        Reply::Recorded(Ok(())),
    ]);
    assert_eq!(
        marks(&actions),
        vec![(Mark::Intent, "intent".to_string()), (Mark::Outcome, "allow".to_string())]
    );
    let intent = actions.iter().position(|a| matches!(a, Action::Record { mark: Mark::Intent, .. }));
    let run = actions.iter().position(|a| matches!(a, Action::Execute));
    assert!(intent < run);
}

#[test]
fn without_a_record_of_the_intent_nothing_runs() {
    let (_, actions) = drive(vec![
        classified(Capability::Destroy),
        allowed(),
        Reply::Acquired(true),
        Reply::Recorded(Err(AuditError::StorageUnavailable)),
        assembled(),
        scrubbed(&[6]),
    ]);
    assert_eq!(executions(&actions), 0);
    assert_eq!(marks(&actions).len(), 1);
    assert_eq!(refused_at(&actions), Stage::Audit);
}

#[test]
fn lost_outcome_record_downgrades_but_does_not_refuse() {
    let (_, actions) = drive(vec![
        classified(Capability::Execute),
        allowed(),
        Reply::Acquired(true),
        Reply::Recorded(Ok(())),
        executed(),
        scrubbed(&[7]),
        Reply::Recorded(Err(AuditError::StorageUnavailable)),
        Reply::Wrapped(Some(vec![8, 8])),
        scrubbed(&[9]),
    ]);
    match &actions[7] {
        Action::Wrap { envelope } => {
            assert_eq!(envelope.downgraded, "executed_but_audit_downgraded");
            assert_eq!(envelope.cause, "audit_storage_unavailable");
            assert_eq!(envelope.payload, vec![7]);
        }
        _ => panic!("not wrapped"),
    }
    assert_eq!(filtered(&actions), vec![vec![1, 2, 3], vec![8, 8]]);
    assert_eq!(response(&actions), vec![9]);
    assert!(!actions.iter().any(|a| matches!(a, Action::Refuse { .. })));
}

#[test]
fn lost_record_of_a_read_refuses() {
    let (_, actions) = drive(vec![
        classified(Capability::Observe),
        allowed(),
        Reply::Acquired(true),
        executed(),
        scrubbed(&[7]),
        Reply::Recorded(Err(AuditError::WriteFailed)),
        assembled(),
        scrubbed(&[6]),
        Reply::Recorded(Err(AuditError::WriteFailed)),
    ]);
    assert_eq!(refused_at(&actions), Stage::Audit);
}

#[test]
fn no_connection_no_execution() {
    let (_, actions) = drive(vec![
        classified(Capability::Observe),
        allowed(),
        Reply::Acquired(false),
        assembled(),
        scrubbed(&[6]),
        Reply::Recorded(Ok(())),
    ]);
    assert_eq!(executions(&actions), 0);
    assert_eq!(refused_at(&actions), Stage::Transport);
}

#[test]
fn failed_execution_refuses() {
    let (_, actions) = drive(vec![
        classified(Capability::Observe),
        allowed(),
        Reply::Acquired(true),
        Reply::Executed(None),
        assembled(),
        scrubbed(&[6]),
        Reply::Recorded(Ok(())),
    ]);
    assert_eq!(refused_at(&actions), Stage::Exec);
}

#[test]
fn unclassified_requests_are_refused() {
    let (s, actions) =
        drive(vec![Reply::Classified(None), assembled(), scrubbed(&[6]), Reply::Recorded(Ok(()))]);
    assert_eq!(refused_at(&actions), Stage::Classify);
    assert_eq!(s.intent().capability, Capability::Observe);
    assert!(s.intent().objects.is_empty());
}

#[test]
fn without_an_adapter_requests_are_refused() {
    let k: Kernel<u8> = Kernel::new(AdapterRegistry::new(vec![]), policy());
    let (mut s, action) = k.submit();
    match action {
        Action::Refuse { facts } => assert_eq!(facts.reason, "denied at classify"),
        _ => panic!("not refused"),
    }
    assert!(!s.expects(&executed()));
    let action = k.advance(&request(), &mut s, Reply::Assembled(None));
    assert!(matches!(action, Action::Scrub { payload } if payload.is_empty()));
    let action = k.advance(&request(), &mut s, scrubbed(&[6]));
    assert!(matches!(action, Action::Record { mark: Mark::Refusal, .. }));
}

#[test]
fn the_record_of_a_refusal() {
    let (_, actions) = drive(vec![
        classified(Capability::Observe),
        refused(vec![(Stage::Auth, "ok"), (Stage::Rbac, "no cell")]),
        assembled(),
        scrubbed(&[6]),
    ]);
    match actions.last() {
        Some(Action::Record { mark: Mark::Refusal, event }) => {
            assert_eq!(event.v, 1);
            assert_eq!(event.kind, "request");
            assert_eq!(event.entry, "data");
            assert!(matches!(event.origin, ConnOrigin::UnixPeer { uid: 0, gid: 0 }));
            assert_eq!(event.resource, "cache");
            assert_eq!(event.capability, Some(Capability::Observe));
            assert_eq!(event.objects, vec!["t"]);
            assert_eq!(event.decision, "deny");
            assert_eq!(event.stage, Some(Stage::Rbac));
            assert_eq!(event.reason, "denied at rbac");
            assert_eq!(event.policy_rev, 42);
        }
        _ => panic!("no record"),
    }
}

#[test]
fn the_record_of_an_intent() {
    let (_, actions) = drive(vec![classified(Capability::Manage), allowed(), Reply::Acquired(true)]);
    match actions.last() {
        Some(Action::Record { mark: Mark::Intent, event }) => {
            assert!(matches!(event.origin, ConnOrigin::UnixPeer { uid: 7, gid: 8 }));
            assert_eq!(event.resource, "db");
            assert_eq!(event.decision, "intent");
            assert_eq!(event.stage, None);
            assert_eq!(event.reason, "");
        }
        _ => panic!("no record"),
    }
}

#[test]
fn escalations_are_worded_apart() {
    for (steps, stage, word) in [
        (vec![(Stage::Tier, "escalate cell folds to deny")], Stage::Tier, "escalate_denied"),
        (vec![(Stage::Tier, "no tier")], Stage::Tier, "deny"),
        (vec![(Stage::Rbac, "escalate")], Stage::Rbac, "deny"),
        (vec![], Stage::Rbac, "deny"),
    ] {
        let (_, actions) =
            drive(vec![classified(Capability::Observe), refused(steps), assembled(), scrubbed(&[6])]);
        match actions.last() {
            Some(Action::Record { event, .. }) => {
                assert_eq!(event.decision, word);
                assert_eq!(event.stage, Some(stage));
            }
            _ => panic!("no record"),
        }
    }
    assert!(!escalated(&EvalTrace { steps: vec![] }));
}

#[test]
fn a_refusal_is_filtered_as_a_copy() {
    let (_, actions) = drive(vec![
        classified(Capability::Observe),
        refused(vec![(Stage::Rbac, "no cell")]),
        assembled(),
        scrubbed(&[6]),
        Reply::Recorded(Ok(())),
    ]);
    assert!(matches!(actions[2], Action::Refuse { .. }));
    assert_eq!(filtered(&actions), vec![vec![4, 5]]);
    assert_eq!(refused_at(&actions), Stage::Rbac);
}

#[test]
fn effects_run_once() {
    let (_, actions) = drive(vec![
        classified(Capability::Mutate),
        allowed(),
        Reply::Acquired(true),
        Reply::Recorded(Ok(())),
        executed(),
        scrubbed(&[7]),
        Reply::Recorded(Err(AuditError::WriteFailed)),
        Reply::Wrapped(None),
        scrubbed(&[9]),
    ]);
    assert_eq!(executions(&actions), 1);
    assert_eq!(filtered(&actions)[1], OUTCOME_DOWNGRADED_CODE.as_bytes());
}

#[test]
fn what_a_refusal_is_assembled_from() {
    let k = kernel();
    let (s, _) = drive(vec![classified(Capability::Observe)]);
    let facts = k.deny_facts(&s, Stage::Transport);
    assert_eq!(facts.principal, 0);
    assert_eq!(facts.resource, "cache");
    assert_eq!(facts.reason, "denied at connect");
    assert_eq!(facts.objects, vec!["t"]);
    assert_eq!(facts.capability, Capability::Observe);
}

#[test]
fn bytes_that_leave() {
    assert_eq!(downgraded_egress(Some(vec![1, 2])), vec![1, 2]);
    assert_eq!(downgraded_egress(None), OUTCOME_DOWNGRADED_CODE.as_bytes());
    assert_eq!(refusal_egress(Some(vec![3])), vec![3]);
    assert!(refusal_egress(None).is_empty());
    let e = DowngradeEnvelope::new("audit_write_failed", vec![9]);
    assert_eq!(e.downgraded, "executed_but_audit_downgraded");
    assert_eq!(e.cause, "audit_write_failed");
    assert_eq!(e.payload, vec![9]);
}

#[test]
fn verbs_are_audited_by_their_effects() {
    for c in [Capability::Observe, Capability::Query] {
        assert_eq!(AuditClass::of(c), AuditClass::Read);
    }
    for c in [Capability::Mutate, Capability::Execute, Capability::Manage, Capability::Destroy] {
        assert_eq!(AuditClass::of(c), AuditClass::SideEffecting);
    }
}

#[test]
fn what_a_lost_record_means() {
    let lost = Err(AuditError::WriteFailed);
    assert_eq!(AuditPhase::record_intent(lost), Err(DaemonError::Boot));
    assert_eq!(AuditPhase::record_read(lost), Err(DaemonError::Boot));
    assert_eq!(
        AuditPhase::record_outcome(lost),
        Err(OutcomeDegraded { cause: AuditError::WriteFailed })
    );
    assert_eq!(AuditPhase::record_blocking(None), lost);
    assert_eq!(AuditPhase::record_blocking(Some(Ok(()))), Ok(()));
    let d = OutcomeDegraded { cause: AuditError::StorageUnavailable };
    assert_eq!(d.cause_code(), "audit_storage_unavailable");
    assert_eq!(OutcomeDegraded { cause: AuditError::WriteFailed }.cause_code(), "audit_write_failed");
    assert_eq!(d.message(), "executed but audit downgraded");
}

#[test]
fn failures_are_charged_to_their_stage() {
    for (err, stage, name) in [
        (DownstreamError::Auth(AuthError::InvalidCredential), Stage::Auth, "auth"),
        (DownstreamError::Classify, Stage::Classify, "classify"),
        (DownstreamError::Constraint, Stage::Constraint, "constraint"),
        (DownstreamError::Predicate, Stage::Condition, "condition"),
        (DownstreamError::Credential, Stage::Transport, "connect"),
        (DownstreamError::Transport, Stage::Transport, "connect"),
        (DownstreamError::Resolve, Stage::Transport, "connect"),
        (DownstreamError::Exec, Stage::Exec, "exec"),
        (DownstreamError::Audit(AuditError::WriteFailed), Stage::Audit, "audit"),
        (DownstreamError::Discover, Stage::Discover, "discover"),
    ] {
        assert_eq!(deny_stage(&err), stage);
        assert_eq!(stage.as_str(), name);
        assert_eq!(deny_reason(stage), format!("denied at {}", name));
    }
}

#[test]
fn texts_of_daemon_errors() {
    assert_eq!(DaemonError::Boot.message(), "boot stage failed");
    assert_eq!(DaemonError::Listener.message(), "listener failed");
    assert_eq!(DaemonError::Pool.message(), "connection pool failed");
    assert_eq!(DaemonError::Sanitize.message(), "sanitize failed");
    assert_eq!(DaemonError::NotImplemented.message(), "control capability not implemented");
}
