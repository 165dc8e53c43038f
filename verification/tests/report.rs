use oh_check::gradient::{Gradient, Record};
use oh_check::model::PlanItem;
use oh_check::report::{entry_gradients, failed_interfaces, plan_entries};

fn item(entry: &str, index: usize) -> PlanItem {
    PlanItem {
        entry: entry.to_string(),
        interface_index: index,
        interface_type: "X".to_string(),
        endpoint: "https://x".to_string(),
        probe: None,
    }
}

fn record(entry: &str, index: usize, passed: bool, at: &str) -> Record {
    Record {
        entry: entry.to_string(),
        interface_index: index,
        kind: "http-get".to_string(),
        url: "https://x".to_string(),
        passed,
        status: Some(200),
        latency_ms: 1,
        detail: String::new(),
        measured_at: at.to_string(),
    }
}

#[test]
fn entries_come_once_in_plan_order() {
    let plan = vec![item("a", 0), item("a", 1), item("b", 0), item("c", 0), item("c", 1)];
    assert_eq!(plan_entries(&plan), vec!["a".to_string(), "b".to_string(), "c".to_string()]);
    assert!(plan_entries(&[]).is_empty());
}

#[test]
fn an_entry_badge_sees_its_own_interfaces_in_order() {
    let plan = vec![item("a", 0), item("b", 0), item("a", 1)];
    let history = vec![
        record("a", 1, false, "2026-08-20T10:00:00Z"),
        record("a", 1, true, "2026-08-20T11:00:00Z"),
        record("b", 0, false, "2026-08-20T11:00:00Z"),
    ];
    assert_eq!(
        entry_gradients(&history, &plan, "a"),
        vec![
            Gradient::NeverChecked,
            Gradient::Passed { measured_at: "2026-08-20T11:00:00Z".to_string() },
        ]
    );
    assert_eq!(
        entry_gradients(&history, &plan, "b"),
        vec![Gradient::Failed { measured_at: "2026-08-20T11:00:00Z".to_string() }]
    );
    assert!(entry_gradients(&history, &plan, "z").is_empty());
}

#[test]
fn the_run_fails_exactly_when_an_interface_failed() {
    let plan = vec![item("a", 0), item("a", 1), item("b", 0)];
    let mut history = vec![record("a", 0, true, "2026-08-20T10:00:00Z")];
    assert_eq!(failed_interfaces(&history, &plan), 0);
    history.push(record("b", 0, false, "2026-08-20T11:00:00Z"));
    history.push(record("a", 1, false, "2026-08-20T11:00:00Z"));
    assert_eq!(failed_interfaces(&history, &plan), 2);
    // A later pass restores: the latest record decides.
    history.push(record("b", 0, true, "2026-08-20T12:00:00Z"));
    assert_eq!(failed_interfaces(&history, &plan), 1);
    // Records about interfaces outside the plan count for nothing.
    history.push(record("z", 0, false, "2026-08-20T12:00:00Z"));
    assert_eq!(failed_interfaces(&history, &plan), 1);
}
