//! Badge emission: one shields.io endpoint document per entry. The
//! aggregation preserves the gradient: «never checked» and «partially
//! checked» are visible states, never rounded up to green.
use vstd::prelude::*;
use crate::gradient::{Gradient, GradientView};
use crate::text::{chars_of, push_str, string_of};

verus! {

/// The four badge messages, from the gradients of an entry's interfaces.
pub enum BadgeLevel {
    Failed,
    Passed,
    PartiallyChecked,
    NeverChecked,
}

/// Whether some interface failed.
pub open spec fn any_failed(gs: Seq<GradientView>) -> bool {
    exists|i: int| 0 <= i < gs.len() && (#[trigger] gs[i]) is Failed
}

/// Whether some interface passed.
pub open spec fn any_passed(gs: Seq<GradientView>) -> bool {
    exists|i: int| 0 <= i < gs.len() && (#[trigger] gs[i]) is Passed
}

/// Whether there are interfaces and every one passed.
pub open spec fn all_passed(gs: Seq<GradientView>) -> bool {
    gs.len() > 0 && forall|i: int| 0 <= i < gs.len() ==> (#[trigger] gs[i]) is Passed
}

/// A failure dominates; green only when everything passed; a pass beside
/// unchecked interfaces is partial; otherwise never checked.
pub open spec fn badge_level(gs: Seq<GradientView>) -> BadgeLevel {
    if any_failed(gs) {
        BadgeLevel::Failed
    } else if all_passed(gs) {
        BadgeLevel::Passed
    } else if any_passed(gs) {
        BadgeLevel::PartiallyChecked
    } else {
        BadgeLevel::NeverChecked
    }
}

/// The message and colour of a badge level.
pub open spec fn badge_text(level: BadgeLevel) -> (Seq<char>, Seq<char>) {
    match level {
        BadgeLevel::Failed => ("failed"@, "red"@),
        BadgeLevel::Passed => ("passed"@, "brightgreen"@),
        BadgeLevel::PartiallyChecked => ("partially checked"@, "yellow"@),
        BadgeLevel::NeverChecked => ("never checked"@, "lightgrey"@),
    }
}

/// The gradients' views.
pub open spec fn gradient_views(gradients: Seq<Gradient>) -> Seq<GradientView> {
    gradients.map_values(|g: Gradient| g@)
}

/// Aggregated badge message + color for one entry's interfaces.
pub fn aggregate(gradients: &[Gradient]) -> (r: (&'static str, &'static str))
    ensures
        (r.0@, r.1@) == badge_text(badge_level(gradient_views(gradients@))),
{
    let ghost gs = gradient_views(gradients@);
    let mut any_failed = false;
    let mut all_passed = gradients.len() > 0;
    let mut any_passed = false;
    let mut i: usize = 0;
    while i < gradients.len()
        invariant
            i <= gradients@.len(),
            gs == gradient_views(gradients@),
            any_failed == exists|j: int| 0 <= j < i && (#[trigger] gs[j]) is Failed,
            any_passed == exists|j: int| 0 <= j < i && (#[trigger] gs[j]) is Passed,
            all_passed == (gradients@.len() > 0 && forall|j: int| 0 <= j < i ==> (#[trigger] gs[j]) is Passed),
        decreases gradients@.len() - i,
    {
        match &gradients[i] {
            Gradient::Failed { .. } => {
                any_failed = true;
                all_passed = false;
            },
            Gradient::Passed { .. } => {
                any_passed = true;
            },
            Gradient::NeverChecked => {
                all_passed = false;
            },
        }
        assert(gs[i as int] == gradients@[i as int]@);
        i = i + 1;
    }
    if any_failed {
        ("failed", "red")
    } else if all_passed {
        ("passed", "brightgreen")
    } else if any_passed {
        ("partially checked", "yellow")
    } else {
        ("never checked", "lightgrey")
    }
}

/// A failure dominates everything: one failed interface makes the badge
/// fail whatever the others show.
pub proof fn lemma_failure_dominates(gs: Seq<GradientView>, i: int)
    requires
        0 <= i < gs.len(),
        gs[i] is Failed,
    ensures
        badge_level(gs) is Failed,
{
}

/// Never rounded up to green: the badge passes only when there are
/// interfaces and every one of them passed.
pub proof fn lemma_green_only_when_all_passed(gs: Seq<GradientView>)
    ensures
        (badge_level(gs) is Passed) <==> (gs.len() > 0 && forall|i: int| 0 <= i < gs.len() ==> (#[trigger] gs[i]) is Passed),
{
    if gs.len() > 0 && forall|i: int| 0 <= i < gs.len() ==> (#[trigger] gs[i]) is Passed {
        assert(!any_failed(gs)) by {
            if any_failed(gs) {
                let i = choose|i: int| 0 <= i < gs.len() && (#[trigger] gs[i]) is Failed;
                assert(gs[i] is Passed);
            }
        }
    }
}

/// «Never checked» is kept apart from every checked state: the badge says
/// it exactly when no interface was checked at all.
pub proof fn lemma_never_checked_kept_apart(gs: Seq<GradientView>)
    ensures
        (badge_level(gs) is NeverChecked) <==> (forall|i: int| 0 <= i < gs.len() ==> (#[trigger] gs[i]) is NeverChecked),
{
    if forall|i: int| 0 <= i < gs.len() ==> (#[trigger] gs[i]) is NeverChecked {
        if any_failed(gs) {
            let i = choose|i: int| 0 <= i < gs.len() && (#[trigger] gs[i]) is Failed;
            assert(gs[i] is NeverChecked);
        }
        if any_passed(gs) {
            let i = choose|i: int| 0 <= i < gs.len() && (#[trigger] gs[i]) is Passed;
            assert(gs[i] is NeverChecked);
        }
        if gs.len() > 0 {
            assert(gs[0] is NeverChecked);
        }
    }
    if badge_level(gs) is NeverChecked {
        assert forall|i: int| 0 <= i < gs.len() implies (#[trigger] gs[i]) is NeverChecked by {
            if gs[i] is Failed {
                assert(any_failed(gs));
            }
            if gs[i] is Passed {
                assert(any_passed(gs));
            }
        }
    }
}

/// The badge depends on which states occur, not on the order of the
/// interfaces.
pub proof fn lemma_order_irrelevant(gs: Seq<GradientView>)
    ensures
        badge_level(gs.reverse()) == badge_level(gs),
{
    let rs = gs.reverse();
    assert(any_failed(rs) == any_failed(gs)) by {
        if any_failed(gs) {
            let i = choose|i: int| 0 <= i < gs.len() && (#[trigger] gs[i]) is Failed;
            assert(rs[gs.len() - 1 - i] == gs[i]);
        }
        if any_failed(rs) {
            let i = choose|i: int| 0 <= i < rs.len() && (#[trigger] rs[i]) is Failed;
            assert(rs[i] == gs[gs.len() - 1 - i]);
        }
    }
    assert(any_passed(rs) == any_passed(gs)) by {
        if any_passed(gs) {
            let i = choose|i: int| 0 <= i < gs.len() && (#[trigger] gs[i]) is Passed;
            assert(rs[gs.len() - 1 - i] == gs[i]);
        }
        if any_passed(rs) {
            let i = choose|i: int| 0 <= i < rs.len() && (#[trigger] rs[i]) is Passed;
            assert(rs[i] == gs[gs.len() - 1 - i]);
        }
    }
    assert(all_passed(rs) == all_passed(gs)) by {
        if all_passed(gs) {
            assert forall|i: int| 0 <= i < rs.len() implies (#[trigger] rs[i]) is Passed by {
                assert(rs[i] == gs[gs.len() - 1 - i]);
            }
        }
        if all_passed(rs) {
            assert forall|i: int| 0 <= i < gs.len() implies (#[trigger] gs[i]) is Passed by {
                assert(rs[gs.len() - 1 - i] == gs[i]);
            }
        }
    }
}

/// A shields.io endpoint document (schema version 1).
pub struct ShieldsBadge {
    pub schema_version: u64,
    pub label: String,
    pub message: String,
    pub color: String,
}

/// The shields.io endpoint document for one entry: label
/// `oh-check <entry>`, message and colour from the aggregation.
pub fn shields_json(entry: &str, gradients: &[Gradient]) -> (b: ShieldsBadge)
    ensures
        b.schema_version == 1,
        b.label@ == "oh-check "@ + entry@,
        (b.message@, b.color@) == badge_text(badge_level(gradient_views(gradients@))),
{
    let (message, color) = aggregate(gradients);
    let mut label: Vec<char> = Vec::new();
    push_str(&mut label, "oh-check ");
    push_str(&mut label, entry);
    ShieldsBadge {
        schema_version: 1,
        label: string_of(&label),
        message: string_of(&chars_of(message)),
        color: string_of(&chars_of(color)),
    }
}

} // verus!
