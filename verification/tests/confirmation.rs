//! The repeat-sighting gate.

use motioncap::confirmation::{
    confirm_pending, expire_stale_pending, poll_confirmed_detections, ActiveEventPending,
    PendingConfirmation, PreTriggerPending, PENDING_CONFIRMATION_WINDOW,
};
use motioncap::detect::Detection;
use motioncap::single::Single;
use motioncap::time::{Clock, Duration, Instant};
use motioncap::triggers::evaluate;

fn detection(class_name: &'static str) -> Detection {
    Detection { class_name, confidence: Single { bits: 0.9f32.to_bits() } }
}

fn window() -> Duration {
    Duration { nanos: PENDING_CONFIRMATION_WINDOW }
}

#[test]
fn expire_stale_pending_clears_after_window_elapses() {
    let now = Clock::start().now();
    let backdated = now.nanos - i128::try_from(PENDING_CONFIRMATION_WINDOW).unwrap() - 1_000_000_000;
    let mut pending = Some(PendingConfirmation {
        class_name: "person",
        first_seen: Instant { nanos: backdated },
    });

    expire_stale_pending(&mut pending, now);

    assert!(pending.is_none());
}

#[test]
fn expire_stale_pending_keeps_fresh_pending() {
    let now = Clock::start().now();
    let mut pending = Some(PendingConfirmation { class_name: "person", first_seen: now });

    expire_stale_pending(&mut pending, now);

    assert!(pending.is_some());
}

#[test]
fn expire_stale_pending_is_noop_on_none() {
    let now = Clock::start().now();
    let mut pending: Option<PendingConfirmation> = None;

    expire_stale_pending(&mut pending, now);

    assert!(pending.is_none());
}

#[test]
fn pending_expires_only_past_the_window() {
    let seen = Instant { nanos: 0 };
    let mut pending = Some(PendingConfirmation { class_name: "cat", first_seen: seen });
    expire_stale_pending(&mut pending, seen.plus(window()));
    assert!(pending.is_some());
    expire_stale_pending(&mut pending, Instant { nanos: 5_000_000_001 });
    assert!(pending.is_none());
}

#[test]
fn confirm_pending_first_sighting_is_not_confirmed() {
    let mut pending = None;
    let now = Clock::start().now();

    let result = confirm_pending(&mut pending, vec![detection("person")], now);

    assert!(result.is_none());
    assert!(pending.is_some());
    assert_eq!(pending.unwrap().class_name, "person");
}

#[test]
fn confirm_pending_second_sighting_same_class_within_window_confirms() {
    let mut pending = None;
    let first = Clock::start().now();
    confirm_pending(&mut pending, vec![detection("person")], first);

    let second = first.plus(Duration::from_secs(1));
    let result = confirm_pending(&mut pending, vec![detection("person")], second);

    assert!(result.is_some());
    assert_eq!(pending.unwrap().first_seen, second);
}

#[test]
fn confirm_pending_second_sighting_different_class_replaces_pending_unconfirmed() {
    let mut pending = None;
    let first = Clock::start().now();
    confirm_pending(&mut pending, vec![detection("person")], first);

    let second = first.plus(Duration::from_secs(1));
    let result = confirm_pending(&mut pending, vec![detection("dog")], second);

    assert!(result.is_none());
    assert_eq!(pending.unwrap().class_name, "dog");
}

#[test]
fn confirm_pending_sighting_after_window_expires_is_treated_as_fresh() {
    let mut pending = None;
    let first = Clock::start().now();
    confirm_pending(&mut pending, vec![detection("person")], first);

    let after_expiry = first.plus(window()).plus(Duration::from_secs(1));
    let result = confirm_pending(&mut pending, vec![detection("person")], after_expiry);

    assert!(result.is_none());
    assert_eq!(pending.as_ref().unwrap().first_seen, after_expiry);
}

#[test]
fn class_still_in_view_is_not_displaced_by_an_earlier_one_in_the_list() {
    let mut pending =
        Some(PendingConfirmation { class_name: "dog", first_seen: Instant { nanos: 0 } });
    let now = Instant { nanos: 1_000_000_000 };
    let confirmed =
        confirm_pending(&mut pending, vec![detection("person"), detection("dog")], now).unwrap();
    assert_eq!(confirmed.len(), 2);
    assert_eq!(pending.unwrap().class_name, "dog");
}

#[test]
fn continuous_subject_confirms_on_every_poll_after_the_first() {
    let mut pending = None;
    for i in 0..10u64 {
        let now = Instant { nanos: 0 }.plus(Duration::from_secs(i * 5));
        let result = confirm_pending(&mut pending, vec![detection("person")], now);
        assert_eq!(result.is_some(), i > 0);
    }
}

#[test]
fn poll_without_detections_is_not_confirmed_and_expires_a_stale_sighting() {
    let mut pending =
        Some(PendingConfirmation { class_name: "cat", first_seen: Instant { nanos: 0 } });
    let recent = Instant { nanos: 4_000_000_000 };
    let result: Result<Option<Vec<Detection>>, String> =
        poll_confirmed_detections(Ok(vec![]), &mut pending, recent);
    assert!(result.unwrap().is_none());
    assert!(pending.is_some());
    let late = Instant { nanos: 6_000_000_000 };
    let result: Result<Option<Vec<Detection>>, String> =
        poll_confirmed_detections(Ok(vec![]), &mut pending, late);
    assert!(result.unwrap().is_none());
    assert!(pending.is_none());
}

#[test]
fn failed_detection_is_handed_on_and_changes_nothing() {
    let mut pending =
        Some(PendingConfirmation { class_name: "cat", first_seen: Instant { nanos: 0 } });
    let late = Instant { nanos: 60_000_000_000 };
    let result = poll_confirmed_detections(Err("no model"), &mut pending, late);
    assert_eq!(result.err(), Some("no model"));
    assert_eq!(pending.unwrap().first_seen, Instant { nanos: 0 });
}

#[test]
fn pending_states_start_empty() {
    assert!(!PreTriggerPending::default().is_some());
    assert!(!ActiveEventPending::default().is_some());
}

#[test]
fn empty_detections_yield_no_trigger() {
    assert!(evaluate(Vec::new()).is_none());
}

#[test]
fn nonempty_detections_are_passed_through_unchanged() {
    let detections = vec![detection("person")];

    let result = evaluate(detections);

    let result = result.unwrap();
    assert_eq!(result.len(), 1);
    assert_eq!(result[0].class_name, "person");
}
