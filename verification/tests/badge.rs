use oh_check::badge::{aggregate, shields_json};
use oh_check::gradient::Gradient;

fn passed() -> Gradient {
    Gradient::Passed {
        measured_at: "2026-08-20T12:00:00Z".into(),
    }
}
fn failed() -> Gradient {
    Gradient::Failed {
        measured_at: "2026-08-20T12:00:00Z".into(),
    }
}

#[test]
fn aggregation_preserves_the_gradient() {
    assert_eq!(aggregate(&[]).0, "never checked");
    assert_eq!(
        aggregate(&[Gradient::NeverChecked, Gradient::NeverChecked]).0,
        "never checked"
    );
    assert_eq!(
        aggregate(&[passed(), Gradient::NeverChecked]).0,
        "partially checked"
    );
    assert_eq!(aggregate(&[passed(), passed()]).0, "passed");
    // A failure dominates everything: never rounded away.
    assert_eq!(
        aggregate(&[passed(), failed(), Gradient::NeverChecked]).0,
        "failed"
    );
}

#[test]
fn shields_schema_shape() {
    let value = shields_json("fedlex-sparql", &[passed()]);
    assert_eq!(value.schema_version, 1);
    assert_eq!(value.message, "passed");
    assert_eq!(value.color, "brightgreen");
}

#[test]
fn badge_colours_and_label() {
    assert_eq!(aggregate(&[failed()]), ("failed", "red"));
    assert_eq!(aggregate(&[passed()]), ("passed", "brightgreen"));
    assert_eq!(aggregate(&[Gradient::NeverChecked, passed()]), ("partially checked", "yellow"));
    assert_eq!(aggregate(&[]), ("never checked", "lightgrey"));
    assert_eq!(shields_json("musterwil", &[]).label, "oh-check musterwil");
}
