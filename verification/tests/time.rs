use oh_check::time::{epoch_of_clock, epoch_to_rfc3339, rfc3339_to_epoch};

#[test]
fn known_vectors_round_trip() {
    // date -u -d @0 and friends
    assert_eq!(epoch_to_rfc3339(0), "1970-01-01T00:00:00Z");
    assert_eq!(rfc3339_to_epoch("1970-01-01T00:00:00Z"), Some(0));
    // 2026-08-20 12:00:00 UTC
    assert_eq!(rfc3339_to_epoch("2026-08-20T12:00:00Z"), Some(1787227200));
    assert_eq!(epoch_to_rfc3339(1787227200), "2026-08-20T12:00:00Z");
    // Offsets normalize to the same instant.
    assert_eq!(
        rfc3339_to_epoch("2026-08-20T14:00:00+02:00"),
        rfc3339_to_epoch("2026-08-20T12:00:00Z")
    );
    // Fractional seconds truncate.
    assert_eq!(
        rfc3339_to_epoch("2026-08-20T12:00:00.500Z"),
        Some(1787227200)
    );
    // Leap-day sanity.
    assert_eq!(
        epoch_to_rfc3339(rfc3339_to_epoch("2024-02-29T23:59:59Z").unwrap()),
        "2024-02-29T23:59:59Z"
    );
}

#[test]
fn malformed_is_refused_never_guessed() {
    for bad in [
        "2026-08-20",
        "20.08.2026T12:00:00Z",
        "2026-08-20T12:00:00",
        "2026-08-20T12:00:00+0200",
        "2026-13-01T00:00:00Z",
        "",
    ] {
        assert_eq!(rfc3339_to_epoch(bad), None, "{bad}");
    }
}

#[test]
fn negative_epochs_format_before_1970() {
    assert_eq!(epoch_to_rfc3339(-1), "1969-12-31T23:59:59Z");
    assert_eq!(epoch_to_rfc3339(-86400), "1969-12-31T00:00:00Z");
    assert_eq!(rfc3339_to_epoch("1969-12-31T23:59:59Z"), Some(-1));
}

#[test]
fn far_years_keep_four_digits_and_more() {
    assert_eq!(epoch_to_rfc3339(253402300799), "9999-12-31T23:59:59Z");
    assert_eq!(epoch_to_rfc3339(253402300800), "10000-01-01T00:00:00Z");
    assert_eq!(epoch_to_rfc3339(-62167219200), "0000-01-01T00:00:00Z");
    assert_eq!(epoch_to_rfc3339(-62167219201), "-001-12-31T23:59:59Z");
}

#[test]
fn surrounding_white_space_and_lower_case_separators() {
    assert_eq!(rfc3339_to_epoch("  2026-08-20t12:00:00z\n"), Some(1787227200));
    assert_eq!(rfc3339_to_epoch("\u{3000}2026-08-20T12:00:00Z\u{a0}"), Some(1787227200));
}

#[test]
fn western_offsets_add_time() {
    assert_eq!(rfc3339_to_epoch("2026-08-20T10:30:00-01:30"), Some(1787227200));
}

#[test]
fn fields_are_digits_only() {
    // A sign is no digit.
    assert_eq!(rfc3339_to_epoch("2026-08-20T+2:00:00Z"), None);
    assert_eq!(rfc3339_to_epoch("2026--8-20T12:00:00Z"), None);
    assert_eq!(rfc3339_to_epoch("-026-08-20T12:00:00Z"), None);
    assert_eq!(rfc3339_to_epoch("2026-08-20T12:00:00+-2:00"), None);
}

#[test]
fn out_of_range_fields_are_refused() {
    assert_eq!(rfc3339_to_epoch("2026-08-20T25:00:00Z"), None);
    assert_eq!(rfc3339_to_epoch("2026-08-20T24:00:00Z"), None);
    assert_eq!(rfc3339_to_epoch("2026-08-20T12:60:00Z"), None);
    assert_eq!(rfc3339_to_epoch("2026-08-20T12:00:61Z"), None);
    assert_eq!(rfc3339_to_epoch("2026-02-30T00:00:00Z"), None);
    assert_eq!(rfc3339_to_epoch("2026-02-29T00:00:00Z"), None);
    assert_eq!(rfc3339_to_epoch("2026-04-31T00:00:00Z"), None);
    assert_eq!(rfc3339_to_epoch("2026-08-00T00:00:00Z"), None);
    assert_eq!(rfc3339_to_epoch("2026-00-10T00:00:00Z"), None);
    assert_eq!(rfc3339_to_epoch("1900-02-29T00:00:00Z"), None);
    assert_eq!(rfc3339_to_epoch("2026-08-20T12:00:00+24:00"), None);
    assert_eq!(rfc3339_to_epoch("2026-08-20T12:00:00+02:60"), None);
}

#[test]
fn edges_of_the_ranges_are_accepted() {
    assert_eq!(rfc3339_to_epoch("2024-02-29T00:00:00Z"), Some(1709164800));
    assert_eq!(rfc3339_to_epoch("2000-02-29T00:00:00Z"), Some(951782400));
    assert_eq!(rfc3339_to_epoch("2026-08-20T23:59:59Z"), Some(1787270399));
    assert_eq!(rfc3339_to_epoch("2026-08-21T00:00:00+23:59"), Some(1787270400 - 86340));
    assert_eq!(rfc3339_to_epoch("2026-12-31T00:00:00Z"), Some(1798675200));
}

#[test]
fn the_clock_reads_after_1970() {
    let now = oh_check::time::now_epoch().expect("a clock after 1970");
    assert!(now > 1_700_000_000);
}

#[test]
fn clock_readings_become_epoch_seconds() {
    assert_eq!(epoch_of_clock(Some(1787227200)), Some(1787227200));
    assert_eq!(epoch_of_clock(Some(0)), Some(0));
    assert_eq!(epoch_of_clock(None), None);
}

#[test]
fn a_leap_second_reads_as_the_next_instant() {
    assert_eq!(rfc3339_to_epoch("2016-12-31T23:59:60Z"), Some(1483228800));
    assert_eq!(rfc3339_to_epoch("2016-12-31T23:59:60Z"), rfc3339_to_epoch("2017-01-01T00:00:00Z"));
    assert_eq!(rfc3339_to_epoch("2026-08-20T12:00:60Z"), Some(1787227260));
}
