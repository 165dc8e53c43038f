use oh_check::sectxt::{evaluate, SecTxtStatus};

const NOW: i64 = 1_787_227_200; // 2026-08-20T12:00:00Z

#[test]
fn valid_file_with_unknown_fields_tolerated() {
    let content = "# comment\nContact: mailto:security@example.org\n\
                   Expires: 2027-01-01T00:00:00Z\nX-Custom-Field: anything\n";
    assert_eq!(evaluate(content, NOW), SecTxtStatus::Valid);
}

#[test]
fn missing_contact_fires() {
    let content = "Expires: 2027-01-01T00:00:00Z\n";
    let SecTxtStatus::Invalid { reasons } = evaluate(content, NOW) else {
        panic!("expected Invalid");
    };
    assert!(reasons.iter().any(|r| r.contains("Contact")));
}

#[test]
fn missing_expires_fires() {
    let content = "Contact: mailto:security@example.org\n";
    let SecTxtStatus::Invalid { reasons } = evaluate(content, NOW) else {
        panic!("expected Invalid");
    };
    assert!(reasons.iter().any(|r| r.contains("Expires missing")));
}

#[test]
fn expired_within_grace_is_a_warning_state() {
    // Expired 10 days before NOW: inside the 30-day window.
    let content = "Contact: mailto:s@example.org\nExpires: 2026-08-10T12:00:00Z\n";
    assert!(matches!(
        evaluate(content, NOW),
        SecTxtStatus::ExpiredInGrace { .. }
    ));
}

#[test]
fn expired_past_grace_fails() {
    let content = "Contact: mailto:s@example.org\nExpires: 2026-06-01T00:00:00Z\n";
    assert!(matches!(
        evaluate(content, NOW),
        SecTxtStatus::Invalid { .. }
    ));
}

#[test]
fn field_names_are_case_insensitive() {
    let content = "cOnTaCt: mailto:s@example.org\nEXPIRES: 2027-01-01T00:00:00Z\n";
    assert_eq!(evaluate(content, NOW), SecTxtStatus::Valid);
}

#[test]
fn unparsable_expires_is_refused_never_guessed() {
    let content = "Contact: mailto:s@example.org\nExpires: next year\n";
    assert!(matches!(
        evaluate(content, NOW),
        SecTxtStatus::Invalid { .. }
    ));
}

#[test]
fn reasons_are_worded_exactly() {
    assert_eq!(
        evaluate("", NOW),
        SecTxtStatus::Invalid {
            reasons: vec![
                "required field Contact missing".to_string(),
                "required field Expires missing".to_string(),
            ]
        }
    );
    assert_eq!(
        evaluate("Contact: x\nExpires: soon\n", NOW),
        SecTxtStatus::Invalid { reasons: vec!["Expires not RFC 3339: \u{ab}soon\u{bb}".to_string()] }
    );
    assert_eq!(
        evaluate("Contact: x\r\nExpires: 2026-06-01T00:00:00Z\r\n", NOW),
        SecTxtStatus::Invalid {
            reasons: vec!["Expires past the grace window: 2026-06-01T00:00:00Z".to_string()]
        }
    );
}

#[test]
fn grace_state_names_the_expiry_and_the_first_expires_wins() {
    let content = "Contact: x\nExpires: 2026-08-10T12:00:00Z\nExpires: 2030-01-01T00:00:00Z\n";
    assert_eq!(
        evaluate(content, NOW),
        SecTxtStatus::ExpiredInGrace { expired_at: "2026-08-10T12:00:00Z".to_string() }
    );
}

#[test]
fn an_empty_contact_does_not_count_and_comments_hold_no_fields() {
    let content = "Contact:   \n# Contact: mailto:x@y\nExpires: 2027-01-01T00:00:00Z\n";
    assert_eq!(
        evaluate(content, NOW),
        SecTxtStatus::Invalid { reasons: vec!["required field Contact missing".to_string()] }
    );
}

#[test]
fn the_grace_window_is_thirty_days_inclusive() {
    let content = "Contact: x\nExpires: 2026-07-21T12:00:00Z\n";
    assert!(matches!(evaluate(content, NOW), SecTxtStatus::ExpiredInGrace { .. }));
    assert!(matches!(evaluate(content, NOW + 1), SecTxtStatus::Invalid { .. }));
    assert_eq!(oh_check::sectxt::EXPIRES_GRACE_SECS, 30 * 86400);
}

#[test]
fn malformed_line_is_reported() {
    let content = "Contact: mailto:s@example.org\nExpires: 2027-01-01T00:00:00Z\nthis line has no colon\n";
    let SecTxtStatus::Invalid { reasons } = evaluate(content, NOW) else {
        panic!("expected Invalid");
    };
    assert_eq!(reasons, vec!["malformed line (no colon): \u{ab}this line has no colon\u{bb}".to_string()]);
}

#[test]
fn malformed_lines_follow_the_field_reasons() {
    let content = "  no colon here  \nExpires: 2027-01-01T00:00:00Z\nnor here";
    let SecTxtStatus::Invalid { reasons } = evaluate(content, NOW) else {
        panic!("expected Invalid");
    };
    assert_eq!(
        reasons,
        vec![
            "required field Contact missing".to_string(),
            "malformed line (no colon): \u{ab}no colon here\u{bb}".to_string(),
            "malformed line (no colon): \u{ab}nor here\u{bb}".to_string(),
        ]
    );
}

#[test]
fn blank_lines_comments_and_crlf_are_not_malformed() {
    let content = "\r\n# a comment without colon\r\n   \r\nContact: mailto:s@example.org\r\nExpires: 2027-01-01T00:00:00Z\r\n";
    assert_eq!(evaluate(content, NOW), SecTxtStatus::Valid);
}

#[test]
fn malformed_line_turns_a_grace_warning_into_a_failure() {
    let content = "Contact: mailto:s@example.org\nExpires: 2026-08-10T12:00:00Z\noops\n";
    let SecTxtStatus::Invalid { reasons } = evaluate(content, NOW) else {
        panic!("expected Invalid");
    };
    assert_eq!(reasons, vec!["malformed line (no colon): \u{ab}oops\u{bb}".to_string()]);
}
