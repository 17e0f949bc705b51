use backend_supervisor::health::{is_healthy, is_success};

#[test]
fn success_class_bounds() {
    assert!(is_success(200));
    assert!(is_success(204));
    assert!(is_success(299));
    assert!(!is_success(199));
    assert!(!is_success(300));
    assert!(!is_success(404));
    assert!(!is_success(503));
}

#[test]
fn no_response_is_unhealthy() {
    assert!(!is_healthy(None));
}

#[test]
fn health_follows_status() {
    assert!(is_healthy(Some(200)));
    assert!(!is_healthy(Some(500)));
    assert!(!is_healthy(Some(301)));
}
