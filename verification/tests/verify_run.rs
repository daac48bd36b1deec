use postern_daemon::control::verify::{
    deny_view, echoed, json_string, judge, leaked, pg_intent, probe_set, DenyView, Expect,
    ProbeContext, Trace, VerifyAudit, VerifyCorpus, VerifyRun,
};
use postern_daemon::domain::{AuditEvent, ConnOrigin, Stage};

fn context() -> ProbeContext {
    ProbeContext {
        auth_kind: "api_key".to_string(),
        presented_secret: vec![1, 2],
        resource: "db".to_string(),
        trusted_origin: ConnOrigin::Tcp { remote: "a".to_string() },
        untrusted_origin: ConnOrigin::UnixPeer { uid: 1, gid: 1 },
    }
}

fn corpus() -> VerifyCorpus {
    VerifyCorpus {
        scope_out_mutate: "w".to_string(),
        disguised_write: "d".to_string(),
        session_tamper: "s".to_string(),
        multi_statement: "m".to_string(),
        benign_query: "q".to_string(),
    }
}

fn deny(reason: &str, bytes: &str) -> Result<Vec<u8>, DenyView> {
    Err(DenyView {
        reason: reason.to_string(),
        bytes: bytes.as_bytes().to_vec(),
        your_grants_resources: vec!["db".to_string()],
        request_hint_some: false,
    })
}

fn trace(word: &str, stage: Option<Stage>) -> Vec<Trace> {
    vec![(word.to_string(), stage)]
}

#[test]
fn statements_are_quoted() {
    assert_eq!(json_string("a\"b\\c\n\r\td"), "\"a\\\"b\\\\c\\n\\r\\td\"");
    assert_eq!(json_string(""), "\"\"");
    assert_eq!(pg_intent("x\"y"), b"{\"statement\":\"x\\\"y\",\"params\":[]}".to_vec());
    assert_eq!(pg_intent("é"), "{\"statement\":\"é\",\"params\":[]}".as_bytes().to_vec());
}

#[test]
fn there_are_nine_probes() {
    let set = probe_set(&context(), &corpus(), &vec!["s3cret".to_string()]);
    let names: Vec<&str> = set.iter().map(|p| p.name).collect();
    assert_eq!(
        names,
        vec![
            "scope_out_mutate",
            "disguised_write",
            "session_tamper",
            "multi_statement",
            "default_deny_unknown_resource",
            "credential_zero_touch",
            "origin_not_trusted",
            "untrusted_origin_auth_stage",
            "redaction_probe",
        ]
    );
    assert_eq!(set[4].request.resource, "nonexistent-probe-target");
    assert!(matches!(set[6].request.origin, ConnOrigin::UnixPeer { .. }));
    assert!(matches!(set[8].request.origin, ConnOrigin::Tcp { .. }));
    assert_eq!(set[0].request.intent, pg_intent("w"));
    assert_eq!(set[7].request.intent, pg_intent("w"));
    assert_eq!(set[8].request.intent, pg_intent("q"));
    assert_eq!(set[0].request.presented.kind, "api_key");
    assert_eq!(set[0].request.presented.secret, vec![1, 2]);
    assert!(matches!(set[7].expect, Expect::DenyAt(Stage::Auth)));
}

#[test]
fn refusal_at_a_stage() {
    let e = Expect::DenyAt(Stage::Rbac);
    let ok = trace("deny", Some(Stage::Rbac));
    assert_eq!(judge(&e, &deny("denied at rbac", ""), &ok), None);
    assert_eq!(
        judge(&e, &Ok(vec![]), &ok).unwrap(),
        "本应在 rbac 阶被拒,实测却放行(防线漏放)"
    );
    assert_eq!(
        judge(&e, &deny("denied at auth", ""), &ok).unwrap(),
        "本应在 rbac 阶被拒,实测拒绝 reason='denied at auth' 未落该阶(防线错位)"
    );
    for tail in [vec![], trace("deny", Some(Stage::Auth)), trace("allow", Some(Stage::Rbac))] {
        assert_eq!(
            judge(&e, &deny("denied at rbac", ""), &tail).unwrap(),
            "rbac 阶 deny 未逐条留痕(审计缺该项,详设 6.7 留痕可复核)"
        );
    }
}

#[test]
fn refusal_without_a_trace_of_existence() {
    let e = Expect::DenyNoExistenceLeak { absent: "ghost".to_string() };
    let ok = trace("deny", Some(Stage::Rbac));
    assert_eq!(judge(&e, &deny("denied at rbac", ""), &ok), None);
    assert_eq!(
        judge(&e, &Ok(vec![]), &ok).unwrap(),
        "默认拒绝失效:不存在资源被放行(防线漏放)"
    );
    let listed = Expect::DenyNoExistenceLeak { absent: "db".to_string() };
    assert_eq!(
        judge(&listed, &deny("denied at rbac", ""), &ok).unwrap(),
        "拒绝响应泄露了资源 'db' 的存在性(your_grants 含被探测代号)"
    );
    let hinted = Err(deny_view("denied at rbac".to_string(), None, vec![], true));
    assert_eq!(
        judge(&e, &hinted, &ok).unwrap(),
        "拒绝响应 request_hint 暗示了被探测资源的可授性(泄露存在性)"
    );
    assert_eq!(
        judge(&e, &deny("denied at rbac", ""), &[]).unwrap(),
        "默认拒绝未逐条留痕(审计缺该项)"
    );
    assert!(judge(&e, &deny("denied at rbac", ""), &trace("allow", None)).is_some());
}

#[test]
fn refusal_without_an_echo() {
    let e = Expect::DenyNoSecretEcho { forbidden: vec!["".to_string(), "10.0.0.1".to_string()] };
    let ok = trace("deny", Some(Stage::Rbac));
    assert_eq!(judge(&e, &deny("denied at rbac", "{}"), &ok), None);
    assert_eq!(judge(&e, &Ok(vec![]), &ok).unwrap(), "凭据零接触探针本应被拒,实测却放行");
    assert_eq!(
        judge(&e, &deny("", "at 10.0.0.1:5"), &ok).unwrap(),
        "拒绝响应泄露了真实机密子串 '10.0.0.1'(凭据零接触被破 / 脱敏未擦净)"
    );
    assert_eq!(
        judge(&e, &deny("", ""), &[]).unwrap(),
        "凭据零接触 deny 未逐条留痕(审计缺该项)"
    );
}

#[test]
fn refusal_of_the_origin() {
    let e = Expect::OriginNotTrusted;
    let ok = trace("deny", Some(Stage::Auth));
    assert_eq!(judge(&e, &deny("denied at auth", ""), &ok), None);
    assert_eq!(
        judge(&e, &Ok(vec![]), &ok).unwrap(),
        "自报来源被采信:不被采信的来源竟放行(公理三被破)"
    );
    assert_eq!(
        judge(&e, &deny("denied at rbac", ""), &ok).unwrap(),
        "来源不被采信应在 auth 阶拒,实测 reason='denied at rbac' 未落 auth 阶"
    );
    assert_eq!(
        judge(&e, &deny("denied at auth", ""), &[]).unwrap(),
        "来源观测门 deny 未逐条留痕(审计缺该项)"
    );
}

#[test]
fn response_without_an_echo() {
    let e = Expect::AllowNoSecretEcho { forbidden: vec!["pw".to_string()] };
    let ok = trace("allow", None);
    assert_eq!(judge(&e, &Ok(b"rows".to_vec()), &ok), None);
    assert_eq!(
        judge(&e, &deny("denied at rbac", ""), &ok).unwrap(),
        "脱敏探测项本应放行,实测却被拒(reason='denied at rbac')——授权种子或管线异常"
    );
    assert_eq!(
        judge(&e, &Ok(b"a pw b".to_vec()), &ok).unwrap(),
        "放行响应回显了真实机密子串 'pw'(脱敏出口未擦净)"
    );
    assert_eq!(
        judge(&e, &Ok(vec![]), &trace("deny", None)).unwrap(),
        "脱敏探测放行未逐条留痕 allow(审计缺该项)"
    );
}

#[test]
fn echoes_are_found_in_invalid_text_too() {
    let forbidden = vec!["pw".to_string(), "\u{fffd}".to_string()];
    assert_eq!(leaked(b"\xff\xfepw\xff", &forbidden), Some("pw".to_string()));
    assert_eq!(leaked(b"\xff", &forbidden), Some("\u{fffd}".to_string()));
    assert_eq!(leaked("héllo".as_bytes(), &vec!["hl".to_string()]), None);
    assert_eq!(leaked("héllo".as_bytes(), &vec!["éll".to_string()]), Some("éll".to_string()));
    assert_eq!(echoed("x", &vec!["".to_string()]), None);
}

fn event(decision: &str, stage: Option<Stage>) -> AuditEvent {
    AuditEvent {
        v: 1,
        kind: "request".to_string(),
        entry: "data".to_string(),
        origin: ConnOrigin::UnixPeer { uid: 0, gid: 0 },
        principal: None,
        resource: String::new(),
        capability: None,
        objects: vec![],
        decision: decision.to_string(),
        stage,
        reason: String::new(),
        policy_rev: 0,
    }
}

fn run(spoil: Option<usize>) -> postern_daemon::control::verify::VerifyReport {
    let mut audit = VerifyAudit::new();
    audit.record(&event("old", None));
    let mut run = VerifyRun::start(
        &context(),
        &corpus(),
        &vec!["pw".to_string()],
        audit.snapshot().len(),
    );
    let stages = [
        Stage::Rbac,
        Stage::Rbac,
        Stage::Classify,
        Stage::Classify,
        Stage::Rbac,
        Stage::Rbac,
        Stage::Auth,
        Stage::Auth,
    ];
    let mut at = 0;
    while run.next_request().is_some() {
        let result = if at < 8 {
            audit.record(&event("deny", Some(stages[at])));
            Err(deny_view(format!("denied at {}", stages[at].as_str()), None, vec![], false))
        } else {
            audit.record(&event("allow", None));
            Ok(b"rows".to_vec())
        };
        let result = if spoil == Some(at) { Ok(b"pw".to_vec()) } else { result };
        run.observe(&result, &audit.snapshot());
        at += 1;
    }
    assert_eq!(at, 9);
    run.report()
}

#[test]
fn all_probes_pass() {
    let report = run(None);
    assert!(report.all_pass);
    assert_eq!(report.items.len(), 9);
    assert!(report.items.iter().all(|i| i.pass && i.gap_note.is_none()));
}

#[test]
fn one_gap_fails_the_report() {
    for n in 0..9 {
        let report = run(Some(n));
        assert!(!report.all_pass);
        for (i, item) in report.items.iter().enumerate() {
            assert_eq!(item.pass, i != n);
            assert_eq!(item.gap_note.is_some(), i == n);
        }
    }
}

#[test]
fn a_record_counts_for_its_own_probe_only() {
    let mut audit = VerifyAudit::default();
    let mut run = VerifyRun::start(&context(), &corpus(), &vec![], 0);
    audit.record(&event("deny", Some(Stage::Rbac)));
    let refusal = Err(deny_view("denied at rbac".to_string(), Some(vec![1]), vec![], false));
    run.observe(&refusal, &audit.snapshot());
    run.observe(&refusal, &audit.snapshot());
    let report = run.report();
    assert!(report.items[0].pass);
    assert!(!report.items[1].pass);
}

#[test]
fn literals_read_back() {
    for text in ["", "a\"b\\c\n\r\td", "\\\\\"\"", "h\u{e9}\u{4e2d}", "\\n"] {
        let read: Result<String, _> = serde_json::from_str(&json_string(text));
        assert_eq!(read.unwrap(), text);
    }
}
