use postern_daemon::connpool::backoff::{BACKOFF_BASE, BACKOFF_CAP};
use postern_daemon::connpool::lease::Lease;
use postern_daemon::connpool::opening::{first_call, next_step, OpenCall, OpenReply, OpenStep};
use postern_daemon::connpool::pool::{
    Admission, ConnPool, ConnectOutcome, PoolCaps, TransportForm,
};
use postern_daemon::connpool::{AcquireError, ConnPhase};
use postern_daemon::domain::Stage;
use postern_daemon::registry::TransportRegistry;

fn pool(persistent: bool, per_key: usize, global: usize, queue: usize) -> ConnPool<u32> {
    let forms = vec![("direct".to_string(), TransportForm { persistent })];
    ConnPool::new(TransportRegistry::new(forms), PoolCaps { per_key, global, queue })
}

fn open(pool: &mut ConnPool<u32>, res: &str, tier: &str, channel: u32) -> Lease<u32> {
    assert!(matches!(pool.acquire(res, tier, false, 0), Admission::Connect));
    match pool.connected(res, tier, ConnectOutcome::Opened(channel), 0) {
        (Ok(lease), wakes) => {
            assert!(wakes.is_empty());
            lease
        }
        (Err(_), _) => panic!("no lease"),
    }
}

fn denied(admission: Admission<u32>) -> AcquireError {
    match admission {
        Admission::Deny(e) => e,
        _ => panic!("not refused"),
    }
}

fn phases(pool: &ConnPool<u32>) -> Vec<ConnPhase> {
    pool.recorded_events().iter().map(|e| e.phase).collect()
}

#[test]
fn idle_connections_are_lent_again() {
    let mut p = pool(true, 2, 9, 0);
    let mut lease = open(&mut p, "db", "ro", 7);
    assert_eq!(*lease.channel_mut(), 7);
    assert_eq!(p.in_use("db", "ro"), 1);
    assert!(p.lent(&lease));
    p.give_back(lease);
    assert_eq!(p.in_use("db", "ro"), 0);
    match p.acquire("db", "ro", false, 0) {
        Admission::Lend(mut l) => assert_eq!(*l.channel_mut(), 7),
        _ => panic!("not lent"),
    }
    assert_eq!(phases(&p), vec![ConnPhase::Establish]);
}

#[test]
fn tiers_do_not_share() {
    let mut p = pool(true, 1, 9, 0);
    let lease = open(&mut p, "db", "ro", 7);
    p.give_back(lease);
    assert!(matches!(p.acquire("db", "rw", false, 0), Admission::Connect));
    assert_eq!(p.in_use("db", "ro"), 0);
    assert_eq!(p.in_use("db", "rw"), 1);
}

#[test]
fn events_name_resource_tier_and_form() {
    let mut p = pool(true, 1, 9, 0);
    let _lease = open(&mut p, "db", "ro", 7);
    let events = p.recorded_events();
    assert_eq!(events.len(), 1);
    assert_eq!(events[0].resource, "db");
    assert_eq!(events[0].tier, "ro");
    assert_eq!(events[0].transport_kind, "direct");
}

#[test]
fn limit_per_key_queues_then_refuses() {
    let mut p = pool(true, 1, 9, 1);
    let lease = open(&mut p, "db", "ro", 1);
    assert!(matches!(p.acquire("db", "ro", false, 0), Admission::Wait));
    assert!(matches!(p.acquire("db", "ro", true, 0), Admission::Wait));
    assert_eq!(denied(p.acquire("db", "ro", false, 0)), AcquireError::CapacityExceeded);
    let wakes = p.give_back(lease);
    assert_eq!(wakes.len(), 1);
    assert_eq!(wakes[0].first, "db");
    assert_eq!(wakes[0].second, "ro");
    assert!(matches!(p.acquire("db", "ro", true, 0), Admission::Lend(_)));
    assert!(matches!(p.acquire("db", "ro", false, 0), Admission::Wait));
}

#[test]
fn queue_of_no_seats_refuses_at_once() {
    let mut p = pool(true, 1, 9, 0);
    let _lease = open(&mut p, "db", "ro", 1);
    assert_eq!(denied(p.acquire("db", "ro", false, 0)), AcquireError::CapacityExceeded);
}

#[test]
fn global_limit_holds_over_all_keys() {
    let mut p = pool(true, 5, 1, 1);
    let a = open(&mut p, "a", "t", 1);
    p.give_back(a);
    let b = open(&mut p, "b", "t", 2);
    assert!(matches!(p.acquire("a", "t", false, 0), Admission::Wait));
    let wakes = p.give_back(b);
    assert_eq!(wakes.len(), 1);
    assert_eq!(wakes[0].first, "a");
    assert!(matches!(p.acquire("a", "t", true, 0), Admission::Lend(_)));
}

#[test]
fn failed_attempts_give_the_seat_back() {
    let mut p = pool(true, 1, 9, 0);
    for (outcome, expected) in [
        (ConnectOutcome::NoCredential, AcquireError::Credential),
        (ConnectOutcome::Unresolved, AcquireError::Resolve),
    ] {
        assert!(matches!(p.acquire("db", "ro", false, 0), Admission::Connect));
        assert!(p.reserved("db", "ro"));
        match p.connected("db", "ro", outcome, 0) {
            (Err(e), _) => {
                assert_eq!(e, expected);
                assert_eq!(e.stage(), Stage::Transport);
            }
            _ => panic!("lease"),
        }
        assert!(!p.reserved("db", "ro"));
    }
    assert!(matches!(p.acquire("db", "ro", false, 0), Admission::Connect));
}

#[test]
fn transport_failure_backs_off() {
    let mut p = pool(true, 1, 9, 0);
    assert!(matches!(p.acquire("db", "ro", false, 100), Admission::Connect));
    match p.connected("db", "ro", ConnectOutcome::Unreachable, 100) {
        (Err(e), _) => assert_eq!(e, AcquireError::Transport),
        _ => panic!("lease"),
    }
    assert_eq!(
        denied(p.acquire("db", "ro", false, 100 + BACKOFF_BASE - 1)),
        AcquireError::BackoffActive
    );
    assert!(matches!(p.acquire("other", "ro", false, 100), Admission::Connect));
    assert!(matches!(p.acquire("db", "ro", false, 100 + BACKOFF_CAP), Admission::Connect));
}

#[test]
fn success_forgets_the_failures() {
    let mut p = pool(true, 1, 9, 0);
    assert!(matches!(p.acquire("db", "ro", false, 0), Admission::Connect));
    assert!(p.connected("db", "ro", ConnectOutcome::Unreachable, 0).0.is_err());
    assert!(matches!(p.acquire("db", "ro", false, 60_000), Admission::Connect));
    let lease = p.connected("db", "ro", ConnectOutcome::Opened(1), 60_000).0.ok().unwrap();
    p.give_back(lease);
    assert!(matches!(p.acquire("db", "ro", false, 60_001), Admission::Lend(_)));
}

#[test]
fn transports_that_are_not_persistent_are_not_pooled() {
    let mut p = pool(false, 1, 9, 0);
    let lease = open(&mut p, "db", "ro", 1);
    p.give_back(lease);
    assert!(matches!(p.acquire("db", "ro", false, 0), Admission::Connect));
    assert!(p.connected("db", "ro", ConnectOutcome::Unreachable, 0).0.is_err());
    assert!(matches!(p.acquire("db", "ro", false, 0), Admission::Connect));
}

#[test]
fn damaged_connections_are_destroyed_and_recorded() {
    let mut p = pool(true, 1, 9, 0);
    let mut lease = open(&mut p, "db", "ro", 1);
    assert!(lease.sanitize_for_return());
    lease.mark_damaged();
    assert!(!lease.sanitize_for_return());
    p.give_back(lease);
    assert!(matches!(p.acquire("db", "ro", false, 0), Admission::Connect));
    assert_eq!(phases(&p), vec![ConnPhase::Establish, ConnPhase::Recycle]);
}

#[test]
fn aborted_connections_are_not_pooled_again() {
    let mut p = pool(true, 3, 9, 0);
    let a = open(&mut p, "db", "ro", 1);
    let b = open(&mut p, "db", "ro", 2);
    p.give_back(b);
    let c = open(&mut p, "db", "aa", 3);
    let other = open(&mut p, "x", "ro", 4);
    p.force_abort("db");
    let events = p.recorded_events();
    let aborts: Vec<&str> =
        events.iter().filter(|e| e.phase == ConnPhase::Abort).map(|e| e.tier.as_str()).collect();
    assert_eq!(aborts, vec!["aa", "ro", "ro"]);
    p.give_back(a);
    p.give_back(c);
    p.give_back(other);
    assert!(matches!(p.acquire("db", "ro", false, 0), Admission::Connect));
    assert!(matches!(p.acquire("x", "ro", false, 0), Admission::Lend(_)));
}

#[test]
fn eviction_drops_idle_connections_and_backs_off() {
    let mut p = pool(true, 2, 9, 0);
    let a = open(&mut p, "db", "ro", 1);
    p.give_back(a);
    p.health_evict("nothing", 0);
    p.health_evict("db", 1000);
    assert_eq!(phases(&p), vec![ConnPhase::Establish, ConnPhase::HealthEvict]);
    assert_eq!(denied(p.acquire("db", "ro", false, 1000)), AcquireError::BackoffActive);
    p.health_evict("db", 1000);
    assert_eq!(p.recorded_events().len(), 2);
}

#[test]
fn without_a_transport_nothing_is_opened() {
    let mut p: ConnPool<u32> = ConnPool::new(
        TransportRegistry::new(vec![("ssh".to_string(), TransportForm { persistent: true })]),
        PoolCaps { per_key: 1, global: 1, queue: 1 },
    );
    assert_eq!(denied(p.acquire("db", "ro", false, 0)), AcquireError::NoTransport);
}

#[test]
fn nothing_is_called_after_a_failed_call() {
    assert_eq!(first_call(), OpenCall::Credential);
    assert!(matches!(
        next_step::<u32>(OpenReply::Credential(true)),
        OpenStep::Call(OpenCall::Resolve)
    ));
    assert!(matches!(
        next_step::<u32>(OpenReply::Credential(false)),
        OpenStep::Settle(ConnectOutcome::NoCredential)
    ));
    assert!(matches!(
        next_step::<u32>(OpenReply::Resolved(true)),
        OpenStep::Call(OpenCall::Open)
    ));
    assert!(matches!(
        next_step::<u32>(OpenReply::Resolved(false)),
        OpenStep::Settle(ConnectOutcome::Unresolved)
    ));
    assert!(matches!(
        next_step::<u32>(OpenReply::Opened(None)),
        OpenStep::Settle(ConnectOutcome::Unreachable)
    ));
    assert!(matches!(
        next_step(OpenReply::Opened(Some(7))),
        OpenStep::Settle(ConnectOutcome::Opened(7))
    ));
}

#[test]
fn the_clock_may_end() {
    let mut p = pool(true, 1, 9, 0);
    assert!(matches!(p.acquire("db", "ro", false, u64::MAX), Admission::Connect));
    assert!(p.connected("db", "ro", ConnectOutcome::Unreachable, u64::MAX).0.is_err());
    assert_eq!(denied(p.acquire("db", "ro", false, u64::MAX - 1)), AcquireError::BackoffActive);
    let mut p = pool(true, 1, 9, 0);
    let lease = open(&mut p, "db", "ro", 1);
    p.give_back(lease);
    p.health_evict("db", u64::MAX);
    assert_eq!(denied(p.acquire("db", "ro", false, u64::MAX - 1)), AcquireError::BackoffActive);
}
