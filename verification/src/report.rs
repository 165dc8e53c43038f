//! What a run reports over its plan: the entries in plan order, the
//! gradients of each entry's interfaces (one badge per entry), and how
//! many interfaces failed; a run with a failed interface fails.
use vstd::prelude::*;
use crate::badge::gradient_views;
use crate::gradient::{for_interface, interface_gradient, Gradient, GradientView, Record};
use crate::model::PlanItem;
use crate::text::str_equal;

verus! {

/// The entries of a plan in plan order, consecutive repeats taken once.
pub open spec fn plan_entries_of(plan: Seq<PlanItem>) -> Seq<Seq<char>>
    decreases plan.len(),
{
    if plan.len() == 0 {
        seq![]
    } else {
        let before = plan_entries_of(plan.drop_last());
        if before.len() > 0 && before.last() == plan.last().entry@ {
            before
        } else {
            before.push(plan.last().entry@)
        }
    }
}

/// The texts of strings.
pub open spec fn texts_view(v: Seq<String>) -> Seq<Seq<char>> {
    v.map_values(|s: String| s@)
}

/// The entries of a plan in plan order, consecutive repeats taken once
/// (a name-sorted plan names each entry once).
pub fn plan_entries(plan: &[PlanItem]) -> (r: Vec<String>)
    ensures
        texts_view(r@) == plan_entries_of(plan@),
{
    let mut out: Vec<String> = Vec::new();
    let mut i: usize = 0;
    while i < plan.len()
        invariant
            i <= plan@.len(),
            texts_view(out@) == plan_entries_of(plan@.subrange(0, i as int)),
        decreases plan@.len() - i,
    {
        assert(plan@.subrange(0, i + 1).drop_last() =~= plan@.subrange(0, i as int));
        let entry = &plan[i].entry;
        let repeat = out.len() > 0 && str_equal(out[out.len() - 1].as_str(), entry.as_str());
        if !repeat {
            out.push(entry.clone());
        }
        assert(texts_view(out@) =~= plan_entries_of(plan@.subrange(0, i + 1)));
        i = i + 1;
    }
    assert(plan@.subrange(0, plan@.len() as int) =~= plan@);
    out
}

/// The gradients of the planned interfaces of `entry`, in plan order.
pub open spec fn entry_gradients_of(history: Seq<Record>, plan: Seq<PlanItem>, entry: Seq<char>) -> Seq<GradientView>
    decreases plan.len(),
{
    if plan.len() == 0 {
        seq![]
    } else {
        let before = entry_gradients_of(history, plan.drop_last(), entry);
        if plan.last().entry@ == entry {
            before.push(interface_gradient(history, entry, plan.last().interface_index))
        } else {
            before
        }
    }
}

/// The gradients of the planned interfaces of `entry`, in plan order:
/// what that entry's badge aggregates.
pub fn entry_gradients(history: &[Record], plan: &[PlanItem], entry: &str) -> (r: Vec<Gradient>)
    ensures
        gradient_views(r@) == entry_gradients_of(history@, plan@, entry@),
{
    let mut out: Vec<Gradient> = Vec::new();
    let mut i: usize = 0;
    while i < plan.len()
        invariant
            i <= plan@.len(),
            gradient_views(out@) == entry_gradients_of(history@, plan@.subrange(0, i as int), entry@),
        decreases plan@.len() - i,
    {
        assert(plan@.subrange(0, i + 1).drop_last() =~= plan@.subrange(0, i as int));
        let item = &plan[i];
        if str_equal(item.entry.as_str(), entry) {
            out.push(for_interface(history, entry, item.interface_index));
        }
        assert(gradient_views(out@) =~= entry_gradients_of(history@, plan@.subrange(0, i + 1), entry@));
        i = i + 1;
    }
    assert(plan@.subrange(0, plan@.len() as int) =~= plan@);
    out
}

/// How many planned interfaces show a failed gradient.
pub open spec fn failures_of(history: Seq<Record>, plan: Seq<PlanItem>) -> nat
    decreases plan.len(),
{
    if plan.len() == 0 {
        0
    } else {
        failures_of(history, plan.drop_last()) + if interface_gradient(
            history,
            plan.last().entry@,
            plan.last().interface_index,
        ) is Failed {
            1nat
        } else {
            0nat
        }
    }
}

/// How many planned interfaces show a failed gradient.
pub fn failed_interfaces(history: &[Record], plan: &[PlanItem]) -> (r: usize)
    ensures
        r == failures_of(history@, plan@),
{
    let mut count: usize = 0;
    let mut i: usize = 0;
    while i < plan.len()
        invariant
            i <= plan@.len(),
            count <= i,
            count == failures_of(history@, plan@.subrange(0, i as int)),
        decreases plan@.len() - i,
    {
        assert(plan@.subrange(0, i + 1).drop_last() =~= plan@.subrange(0, i as int));
        let item = &plan[i];
        let g = for_interface(history, item.entry.as_str(), item.interface_index);
        if let Gradient::Failed { .. } = g {
            count = count + 1;
        }
        i = i + 1;
    }
    assert(plan@.subrange(0, plan@.len() as int) =~= plan@);
    count
}

/// Whether interface `i` of the plan shows a failed gradient.
pub open spec fn fails_at(history: Seq<Record>, plan: Seq<PlanItem>, i: int) -> bool {
    interface_gradient(history, plan[i].entry@, plan[i].interface_index) is Failed
}

/// A run fails exactly when some planned interface shows a failed
/// gradient: the count of failures is zero just when none does.
pub proof fn lemma_run_fails_exactly_on_a_failure(history: Seq<Record>, plan: Seq<PlanItem>)
    ensures
        failures_of(history, plan) == 0 <==> forall|i: int| 0 <= i < plan.len() ==> !#[trigger] fails_at(history, plan, i),
    decreases plan.len(),
{
    if plan.len() > 0 {
        let before = plan.drop_last();
        let last = plan.len() - 1;
        lemma_run_fails_exactly_on_a_failure(history, before);
        assert forall|i: int| 0 <= i < before.len() implies #[trigger] fails_at(history, before, i) == fails_at(history, plan, i) by {
            assert(before[i] == plan[i]);
        }
        assert(plan[last] == plan.last());
        if failures_of(history, plan) == 0 {
            assert forall|i: int| 0 <= i < plan.len() implies !#[trigger] fails_at(history, plan, i) by {
                if i < before.len() {
                    assert(!fails_at(history, before, i));
                }
            }
        }
        if forall|i: int| 0 <= i < plan.len() ==> !#[trigger] fails_at(history, plan, i) {
            assert forall|i: int| 0 <= i < before.len() implies !#[trigger] fails_at(history, before, i) by {
                assert(!fails_at(history, plan, i));
            }
            assert(!fails_at(history, plan, last));
        }
    }
}

} // verus!
