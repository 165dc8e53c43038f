use oh_check::drift::{assess, CardState, DriftEvent, Observation, GRACE_ESCALATION_SECS};

const NOW: &str = "2026-08-20T12:00:00Z";
const NOW_EPOCH: i64 = 1_787_227_200;

fn clean() -> Observation {
    Observation {
        anchored_kid: Some("musterwil-2026-01".into()),
        kid_served: true,
        signature_verifies: true,
        served_content_jcs: Ok(b"{\"name\":\"agent\"}".to_vec()),
        record_card_jcs: Some(Ok(b"{\"name\":\"agent\"}".to_vec())),
    }
}

fn run(observation: &Observation, previous: &CardState) -> (CardState, Vec<DriftEvent>) {
    assess("musterwil", observation, previous, NOW, NOW_EPOCH).expect("assess runs")
}

#[test]
fn clean_state_is_listed_without_events() {
    let (state, events) = run(&clean(), &CardState::Listed);
    assert_eq!(state, CardState::Listed);
    assert!(events.is_empty());
}

#[test]
fn recovery_from_grace_restores_with_event() {
    let previous = CardState::Grace { since: "2026-08-19T00:00:00Z".into(), reason: "earlier outage".into() };
    let (state, events) = run(&clean(), &previous);
    assert_eq!(state, CardState::Listed);
    assert_eq!(events.len(), 1);
    assert_eq!(events[0].kind, "restored");
    assert_eq!(
        events[0].detail,
        "served state matches the record again (was Grace { since: \"2026-08-19T00:00:00Z\", reason: \"earlier outage\" })"
    );
    assert_eq!(events[0].entry, "musterwil");
    assert_eq!(events[0].at, NOW);
}

#[test]
fn tampered_served_content_enters_grace_with_notification() {
    // Real tampering: the content changes and the real signature goes
    // stale, which the signing toolkit reports as not verifying.
    let observation = Observation {
        signature_verifies: false,
        served_content_jcs: Ok(b"{\"name\":\"Hijacked agent\"}".to_vec()),
        ..clean()
    };
    let (state, events) = run(&observation, &CardState::Listed);
    assert!(matches!(state, CardState::Grace { .. }), "{state:?}");
    assert_eq!(events.len(), 1);
    assert_eq!(events[0].kind, "grace");
    assert!(events[0].detail.contains("does not verify"));
}

#[test]
fn kid_removed_from_served_jwks_is_the_revocation_surface() {
    let observation = Observation { kid_served: false, ..clean() };
    let (state, events) = run(&observation, &CardState::Listed);
    let CardState::Grace { reason, since } = &state else {
        panic!("expected grace, got {state:?}");
    };
    assert!(reason.contains("revocation"), "{reason}");
    assert_eq!(reason, "anchored kid \u{ab}musterwil-2026-01\u{bb} no longer in the served JWKS (revocation)");
    assert_eq!(since, NOW);
    assert_eq!(events[0].kind, "grace");
}

#[test]
fn unresolved_grace_escalates_to_quarantine_after_the_window() {
    let observation = Observation { signature_verifies: false, ..clean() };
    let since = oh_check::time::epoch_to_rfc3339(NOW_EPOCH - GRACE_ESCALATION_SECS - 3600);
    let previous = CardState::Grace { since, reason: "signature failure".into() };
    let (state, events) = run(&observation, &previous);
    assert!(matches!(state, CardState::Quarantine { .. }), "{state:?}");
    assert_eq!(events[0].kind, "quarantine");
}

#[test]
fn grace_inside_the_window_does_not_escalate() {
    let observation = Observation { signature_verifies: false, ..clean() };
    let since = oh_check::time::epoch_to_rfc3339(NOW_EPOCH - 3600);
    let previous = CardState::Grace { since: since.clone(), reason: "signature failure".into() };
    let (state, events) = run(&observation, &previous);
    assert_eq!(
        state,
        CardState::Grace {
            since,
            reason: "served card signature does not verify under the anchored key".into()
        }
    );
    assert!(events.is_empty(), "no repeated notification inside grace");
}

#[test]
fn quarantine_persists_while_the_cause_persists_never_delists() {
    let observation = Observation { signature_verifies: false, ..clean() };
    let previous = CardState::Quarantine { since: "2026-08-01T00:00:00Z".into(), reason: "old".into() };
    let (state, events) = run(&observation, &previous);
    assert!(matches!(state, CardState::Quarantine { since, .. } if since == "2026-08-01T00:00:00Z"));
    assert!(events.is_empty());
}

#[test]
fn newly_signed_card_is_a_re_verification_event_not_a_failure() {
    let observation = Observation {
        served_content_jcs: Ok(b"{\"name\":\"agent v2\"}".to_vec()),
        ..clean()
    };
    let (state, events) = run(&observation, &CardState::Listed);
    assert!(matches!(state, CardState::ReVerificationDue { .. }), "{state:?}");
    assert_eq!(events.len(), 1);
    assert_eq!(events[0].kind, "re-verification-due");
    assert!(events[0].detail.contains("prior revision"));
    // A second daily run in the same situation: state persists, no
    // duplicate notification.
    let (state2, events2) = run(&observation, &state);
    assert_eq!(state2, state);
    assert!(events2.is_empty());
}

#[test]
fn the_re_verification_detail_names_both_hashes() {
    // sha256("a") and sha256("b"), lower-case hex.
    let observation = Observation {
        served_content_jcs: Ok(b"b".to_vec()),
        record_card_jcs: Some(Ok(b"a".to_vec())),
        ..clean()
    };
    let (_, events) = run(&observation, &CardState::Listed);
    assert_eq!(
        events[0].detail,
        "newly signed card served (JCS ca978112ca1b \u{2192} 3e23e8160039); attestation refers to the prior revision until re-verified"
    );
}

#[test]
fn a_record_without_kid_or_card_is_an_error() {
    let no_kid = Observation { anchored_kid: None, ..clean() };
    assert_eq!(
        assess("m", &no_kid, &CardState::Listed, NOW, NOW_EPOCH).unwrap_err(),
        "record: authenticity.keyRef.kid missing"
    );
    let no_card = Observation { record_card_jcs: None, ..clean() };
    assert_eq!(assess("m", &no_card, &CardState::Listed, NOW, NOW_EPOCH).unwrap_err(), "record: no card");
    let bad = Observation { served_content_jcs: Err("not canonical".into()), ..clean() };
    assert_eq!(assess("m", &bad, &CardState::Listed, NOW, NOW_EPOCH).unwrap_err(), "not canonical");
}

#[test]
fn an_unreadable_grace_start_counts_as_now() {
    let observation = Observation { kid_served: false, ..clean() };
    let previous = CardState::Grace { since: "whenever".into(), reason: "r".into() };
    let (state, events) = run(&observation, &previous);
    assert!(matches!(state, CardState::Grace { since, .. } if since == "whenever"));
    assert!(events.is_empty());
}

#[test]
fn the_grace_window_holds_at_the_ends_of_the_clock() {
    let observation = Observation { signature_verifies: false, ..clean() };
    let previous = CardState::Grace { since: NOW.into(), reason: "signature failure".into() };
    let (state, events) = assess("musterwil", &observation, &previous, NOW, i64::MIN).expect("assess runs");
    assert!(matches!(state, CardState::Grace { .. }), "{state:?}");
    assert!(events.is_empty());
    let (state, events) = assess("musterwil", &observation, &previous, NOW, i64::MAX).expect("assess runs");
    assert!(matches!(state, CardState::Quarantine { .. }), "{state:?}");
    assert_eq!(events[0].kind, "quarantine");
    // Exactly the window is still grace; one second more escalates.
    let edge = NOW_EPOCH + GRACE_ESCALATION_SECS;
    let (state, _) = assess("musterwil", &observation, &previous, NOW, edge).expect("assess runs");
    assert!(matches!(state, CardState::Grace { .. }), "{state:?}");
    let (state, _) = assess("musterwil", &observation, &previous, NOW, edge + 1).expect("assess runs");
    assert!(matches!(state, CardState::Quarantine { .. }), "{state:?}");
}
