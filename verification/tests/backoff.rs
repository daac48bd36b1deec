use postern_daemon::connpool::backoff::{deterministic_jitter, Backoff, BACKOFF_BASE, BACKOFF_CAP};

#[test]
fn delay_grows_up_to_the_cap() {
    let mut b = Backoff::new();
    assert_eq!(b.next_delay(), None);
    let mut last = 0;
    for n in 1..200u32 {
        b.record_failure();
        let d = b.next_delay().unwrap();
        assert!(d >= BACKOFF_BASE && d <= BACKOFF_CAP, "{} after {}", d, n);
        assert!(d >= last);
        last = d;
        if n >= 7 {
            assert_eq!(d, BACKOFF_CAP);
        }
    }
    b.reset();
    assert_eq!(b.next_delay(), None);
}

#[test]
fn jitter_is_a_function_of_the_failures() {
    assert_eq!(deterministic_jitter(1), deterministic_jitter(1));
    assert_ne!(deterministic_jitter(1), deterministic_jitter(2));
}
