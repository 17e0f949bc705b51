use backend_supervisor::supervisor::Supervisor;

#[test]
fn start_twice_tracks_second_and_returns_first() {
    let mut s: Supervisor<u32> = Supervisor::new();
    assert_eq!(s.begin_start(), None);
    assert_eq!(s.finish_start(101), None);
    assert_eq!(s.begin_start(), Some(101));
    assert_eq!(s.finish_start(202), None);
    assert!(s.is_tracking());
    assert_eq!(s.shutdown(), Some(202));
    assert!(!s.is_tracking());
}

#[test]
fn shutdown_with_nothing_tracked_is_noop() {
    let mut s: Supervisor<u32> = Supervisor::new();
    assert_eq!(s.shutdown(), None);
    assert!(!s.is_tracking());
    assert_eq!(s.shutdown(), None);
}

#[test]
fn concurrent_store_hands_back_displaced() {
    let mut s: Supervisor<u32> = Supervisor::new();
    assert_eq!(s.begin_start(), None);
    assert_eq!(s.begin_start(), None);
    assert_eq!(s.finish_start(1), None);
    assert_eq!(s.finish_start(2), Some(1));
    assert_eq!(s.shutdown(), Some(2));
}
