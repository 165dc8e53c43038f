//! The check gradient and its history: «never deep-checked» is not
//! «checked, passed». Absence of a check is a visible state of its own,
//! never conflated with success. The latest record for an interface
//! decides its state.
use vstd::prelude::*;
use crate::text::str_equal;

verus! {

/// One probe execution, as appended to the history.
#[derive(Debug, Clone)]
pub struct Record {
    pub entry: String,
    pub interface_index: usize,
    pub kind: String,
    pub url: String,
    pub passed: bool,
    /// HTTP status if an answer arrived.
    pub status: Option<u16>,
    pub latency_ms: u64,
    pub detail: String,
    /// RFC 3339 UTC, stamped at execution.
    pub measured_at: String,
}

/// The visible gradient per interface.
#[derive(Debug, Clone, PartialEq, Eq)]
pub enum Gradient {
    /// No probe declared, or declared but never executed.
    NeverChecked,
    Passed { measured_at: String },
    Failed { measured_at: String },
}

/// The gradient over character sequences.
pub enum GradientView {
    NeverChecked,
    Passed(Seq<char>),
    Failed(Seq<char>),
}

impl View for Gradient {
    type V = GradientView;

    open spec fn view(&self) -> GradientView {
        match self {
            Gradient::NeverChecked => GradientView::NeverChecked,
            Gradient::Passed { measured_at } => GradientView::Passed(measured_at@),
            Gradient::Failed { measured_at } => GradientView::Failed(measured_at@),
        }
    }
}

/// The label each gradient state shows.
pub open spec fn gradient_label(g: GradientView) -> Seq<char> {
    match g {
        GradientView::NeverChecked => "never checked"@,
        GradientView::Passed(_) => "passed"@,
        GradientView::Failed(_) => "failed"@,
    }
}

impl Gradient {
    pub fn label(&self) -> (r: &'static str)
        ensures
            r@ == gradient_label(self@),
    {
        match self {
            Gradient::NeverChecked => "never checked",
            Gradient::Passed { .. } => "passed",
            Gradient::Failed { .. } => "failed",
        }
    }
}

/// Whether record `r` is about interface `interface_index` of `entry`.
pub open spec fn is_about(r: Record, entry: Seq<char>, interface_index: usize) -> bool {
    r.entry@ == entry && r.interface_index == interface_index
}

/// The position of the latest record about the interface, if any.
pub open spec fn latest_about(history: Seq<Record>, entry: Seq<char>, interface_index: usize) -> Option<int>
    decreases history.len(),
{
    if history.len() == 0 {
        None
    } else if is_about(history.last(), entry, interface_index) {
        Some(history.len() - 1)
    } else {
        latest_about(history.drop_last(), entry, interface_index)
    }
}

/// The gradient a record shows.
pub open spec fn gradient_of_record(r: Record) -> GradientView {
    if r.passed {
        GradientView::Passed(r.measured_at@)
    } else {
        GradientView::Failed(r.measured_at@)
    }
}

/// The gradient of an interface: its latest record decides; without one
/// it was never checked.
pub open spec fn interface_gradient(history: Seq<Record>, entry: Seq<char>, interface_index: usize) -> GradientView {
    match latest_about(history, entry, interface_index) {
        None => GradientView::NeverChecked,
        Some(i) => gradient_of_record(history[i]),
    }
}

/// Gradient for one interface: the LATEST record wins (records are
/// appended in execution order; ties resolved by position).
pub fn for_interface(history: &[Record], entry: &str, interface_index: usize) -> (g: Gradient)
    ensures
        g@ == interface_gradient(history@, entry@, interface_index),
{
    let mut i = history.len();
    assert(history@.subrange(0, i as int) =~= history@);
    while i > 0
        invariant
            i <= history@.len(),
            latest_about(history@, entry@, interface_index) == latest_about(
                history@.subrange(0, i as int),
                entry@,
                interface_index,
            ),
        decreases i,
    {
        let r = &history[i - 1];
        assert(history@.subrange(0, i as int).drop_last() =~= history@.subrange(0, i - 1));
        if r.interface_index == interface_index && str_equal(r.entry.as_str(), entry) {
            return if r.passed {
                Gradient::Passed { measured_at: r.measured_at.clone() }
            } else {
                Gradient::Failed { measured_at: r.measured_at.clone() }
            };
        }
        i = i - 1;
    }
    Gradient::NeverChecked
}

/// The latest record wins: appending a record decides its interface's
/// gradient, whatever came before.
pub proof fn lemma_latest_record_wins(history: Seq<Record>, r: Record)
    ensures
        interface_gradient(history.push(r), r.entry@, r.interface_index) == gradient_of_record(r),
{
    assert(history.push(r).last() == r);
}

/// A record about one interface leaves every other interface's gradient
/// as it was: interfaces are never conflated.
pub proof fn lemma_other_interfaces_unchanged(
    history: Seq<Record>,
    r: Record,
    entry: Seq<char>,
    interface_index: usize,
)
    requires
        !is_about(r, entry, interface_index),
    ensures
        interface_gradient(history.push(r), entry, interface_index) == interface_gradient(
            history,
            entry,
            interface_index,
        ),
{
    assert(history.push(r).drop_last() =~= history);
    assert(history.push(r).last() == r);
    if let Some(i) = latest_about(history, entry, interface_index) {
        lemma_latest_in_range(history, entry, interface_index);
        assert(history.push(r)[i] == history[i]);
    }
}

/// The latest record about an interface is one of the history's records
/// and is about that interface.
pub proof fn lemma_latest_in_range(history: Seq<Record>, entry: Seq<char>, interface_index: usize)
    ensures
        latest_about(history, entry, interface_index) matches Some(i) ==> 0 <= i < history.len()
            && is_about(history[i], entry, interface_index),
        latest_about(history, entry, interface_index) is None ==> forall|i: int|
            0 <= i < history.len() ==> !is_about(#[trigger] history[i], entry, interface_index),
    decreases history.len(),
{
    if history.len() > 0 {
        lemma_latest_in_range(history.drop_last(), entry, interface_index);
        assert forall|i: int| 0 <= i < history.len() - 1 implies history.drop_last()[i] == #[trigger] history[i] by {}
    }
}

/// «Never checked» exactly when no record is about the interface.
pub proof fn lemma_never_checked_means_no_record(history: Seq<Record>, entry: Seq<char>, interface_index: usize)
    ensures
        (interface_gradient(history, entry, interface_index) is NeverChecked) <==> (forall|i: int|
            0 <= i < history.len() ==> !is_about(#[trigger] history[i], entry, interface_index)),
{
    lemma_latest_in_range(history, entry, interface_index);
    if let Some(i) = latest_about(history, entry, interface_index) {
        assert(is_about(history[i], entry, interface_index));
    }
}

/// Appending a record bounds what an interface shows: an interface with
/// no record was never checked; a record appended about it makes it show
/// that record's outcome and time; a record about another interface
/// leaves it as it was.
pub proof fn lemma_latest_record_decides(history: Seq<Record>, r: Record, entry: Seq<char>, interface_index: usize)
    ensures
        interface_gradient(Seq::<Record>::empty(), entry, interface_index) == GradientView::NeverChecked,
        (r.entry@ == entry && r.interface_index == interface_index) ==> interface_gradient(
            history.push(r),
            entry,
            interface_index,
        ) == if r.passed {
            GradientView::Passed(r.measured_at@)
        } else {
            GradientView::Failed(r.measured_at@)
        },
        !(r.entry@ == entry && r.interface_index == interface_index) ==> interface_gradient(
            history.push(r),
            entry,
            interface_index,
        ) == interface_gradient(history, entry, interface_index),
{
    let grown = history.push(r);
    assert(grown.drop_last() =~= history);
    assert(grown.last() == r);
    lemma_latest_within(history, entry, interface_index);
    if let Some(i) = latest_about(history, entry, interface_index) {
        assert(grown[i] == history[i]);
    }
}

/// The latest record about an interface lies in the history.
proof fn lemma_latest_within(history: Seq<Record>, entry: Seq<char>, interface_index: usize)
    ensures
        latest_about(history, entry, interface_index) matches Some(i) ==> 0 <= i < history.len(),
    decreases history.len(),
{
    if history.len() > 0 {
        lemma_latest_within(history.drop_last(), entry, interface_index);
    }
}

} // verus!
