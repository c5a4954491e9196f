//! Deadline policies.
use connectrpc::deadline::DeadlinePolicy;
use std::time::Duration;

fn ms(n: u64) -> Duration {
    Duration::from_millis(n)
}

#[test]
fn no_op_policy_is_passthrough() {
    let p = DeadlinePolicy::new();
    assert_eq!(p.moderate(Some(ms(5)), "/svc/m"), Some(ms(5)));
    assert_eq!(p.moderate(None, "/svc/m"), None);
}

#[test]
fn min_clamps_up() {
    let p = DeadlinePolicy::new().with_min(ms(10));
    assert_eq!(p.moderate(Some(ms(1)), "/svc/m"), Some(ms(10)));
    assert_eq!(p.moderate(Some(ms(50)), "/svc/m"), Some(ms(50)));
}

#[test]
fn max_clamps_down() {
    let p = DeadlinePolicy::new().with_max(ms(100));
    assert_eq!(p.moderate(Some(ms(500)), "/svc/m"), Some(ms(100)));
    assert_eq!(p.moderate(Some(ms(50)), "/svc/m"), Some(ms(50)));
}

#[test]
fn default_applies_when_client_absent() {
    let p = DeadlinePolicy::new().with_default_timeout(ms(200));
    assert_eq!(p.moderate(None, "/svc/m"), Some(ms(200)));
    // Default does NOT replace an asserted value.
    assert_eq!(p.moderate(Some(ms(50)), "/svc/m"), Some(ms(50)));
}

#[test]
fn no_default_no_client_is_unbounded() {
    let p = DeadlinePolicy::new().with_min(ms(1)).with_max(ms(100));
    assert_eq!(p.moderate(None, "/svc/m"), None);
}

#[test]
fn misconfigured_min_above_max_does_not_panic() {
    // `Ord::clamp` panics on `min > max`; the policy must not. The
    // conservative choice (smallest server resource use) is to honor
    // `max` as both bounds.
    let p = DeadlinePolicy::new().with_min(ms(500)).with_max(ms(100));
    assert_eq!(p.moderate(Some(ms(1)), "/svc/m"), Some(ms(100)));
    assert_eq!(p.moderate(Some(ms(700)), "/svc/m"), Some(ms(100)));
}

#[test]
fn full_matrix() {
    let p = DeadlinePolicy::new()
        .with_min(ms(10))
        .with_max(ms(100))
        .with_default_timeout(ms(50));
    // In range — passthrough.
    assert_eq!(p.moderate(Some(ms(20)), "/svc/m"), Some(ms(20)));
    // Below min — clamp up.
    assert_eq!(p.moderate(Some(ms(1)), "/svc/m"), Some(ms(10)));
    // Above max — clamp down.
    assert_eq!(p.moderate(Some(ms(500)), "/svc/m"), Some(ms(100)));
    // Absent — default.
    assert_eq!(p.moderate(None, "/svc/m"), Some(ms(50)));
    // Boundary.
    assert_eq!(p.moderate(Some(ms(10)), "/svc/m"), Some(ms(10)));
    assert_eq!(p.moderate(Some(ms(100)), "/svc/m"), Some(ms(100)));
}

#[test]
fn accessors_round_trip() {
    let p = DeadlinePolicy::new()
        .with_min(ms(1))
        .with_max(ms(2))
        .with_default_timeout(ms(3))
        .with_enforce_on_streams(true)
        .with_inter_message_timeout(ms(4));
    assert_eq!(p.min(), ms(1));
    assert_eq!(p.max(), Some(ms(2)));
    assert_eq!(p.default_timeout(), Some(ms(3)));
    assert!(p.enforce_on_streams());
    assert_eq!(p.inter_message_timeout(), Some(ms(4)));
}
