use postern_daemon::registry::{AdapterRegistry, TransportRegistry};

#[test]
fn later_registration_wins_and_keys_ascend() {
    let r = AdapterRegistry::new(vec![
        ("postgres".to_string(), 1),
        ("http".to_string(), 2),
        ("postgres".to_string(), 3),
        ("docker_logs".to_string(), 4),
    ]);
    assert_eq!(r.len(), 3);
    assert!(!r.is_empty());
    assert_eq!(r.adapter_for("postgres"), Some(&3));
    assert_eq!(r.adapter_for("http"), Some(&2));
    assert_eq!(r.adapter_for("ftp"), None);
    assert_eq!(r.protocols(), vec!["docker_logs", "http", "postgres"]);
}

#[test]
fn empty_registry_selects_nothing() {
    let r: TransportRegistry<u8> = TransportRegistry::new(Vec::new());
    assert!(r.is_empty());
    assert_eq!(r.len(), 0);
    assert_eq!(r.transport_for("direct"), None);
    assert!(r.kinds().is_empty());
}

#[test]
fn transports_are_selected_by_form() {
    let r = TransportRegistry::new(vec![("ssm".to_string(), 1), ("direct".to_string(), 2)]);
    assert_eq!(r.kinds(), vec!["direct", "ssm"]);
    assert_eq!(r.transport_for("direct"), Some(&2));
}
