//! Label counters kept in a `hash_histogram::HashHistogram`.
//!
//! Nothing in this module is proved: each function below hands its work to
//! the histogram and states what that call does.

use hash_histogram::HashHistogram;
use std::collections::HashSet;
use vstd::multiset::Multiset;
use vstd::prelude::*;

verus! {

/// A histogram over `u64` labels with `usize` counts. The verifier sees
/// nothing inside it: what it holds is spoken of through `stored_counts`.
#[verifier::external_body]
pub struct LabelHistogram {
    inner: HashHistogram<u64, usize>,
}

/// The count that a histogram stores for each label it holds.
pub uninterp spec fn stored_counts(h: LabelHistogram) -> Map<u64, nat>;

/// The count of `label` in `counts`, zero for a label that is not stored.
pub open spec fn count_in(counts: Map<u64, nat>, label: u64) -> nat {
    if counts.dom().contains(label) {
        counts[label]
    } else {
        0
    }
}

/// The sum of all counts in `counts`.
pub open spec fn sum_of(counts: Map<u64, nat>) -> nat {
    Multiset::from_map(counts).len()
}

/// `HashHistogram::new`: the histogram it returns stores no label.
#[verifier::external_body]
pub(crate) fn histogram_new() -> (h: LabelHistogram)
    ensures
        stored_counts(h) == (Map::<u64, nat>::empty()),
{
    LabelHistogram { inner: HashHistogram::new() }
}

/// `HashHistogram::bump`: a label that is not stored yet is stored with
/// count one, the count of a stored label grows by one, and no other entry
/// changes. The addition is made in `usize`, so the count must have room;
/// with room, the call does not unwind.
#[verifier::external_body]
pub(crate) fn histogram_bump(h: &mut LabelHistogram, label: &u64)
    requires
        count_in(stored_counts(*old(h)), *label) < usize::MAX,
    ensures
        stored_counts(*final(h)) == stored_counts(*old(h)).insert(
            *label,
            count_in(stored_counts(*old(h)), *label) + 1,
        ),
    no_unwind
{
    h.inner.bump(label)
}

/// `HashHistogram::count`: the stored count of `label`, zero where the
/// label is not stored.
#[verifier::external_body]
pub(crate) fn histogram_count(h: &LabelHistogram, label: &u64) -> (count: usize)
    ensures
        count == count_in(stored_counts(*h), *label),
{
    h.inner.count(label)
}

/// `HashHistogram::all_labels`: the set of the stored labels.
#[verifier::external_body]
pub(crate) fn histogram_labels(h: &LabelHistogram) -> (labels: HashSet<u64>)
    ensures
        labels@ == stored_counts(*h).dom(),
{
    h.inner.all_labels()
}

/// `HashHistogram::total_count`: the sum of the stored counts. The sum is
/// made in `usize`, so it must fit.
#[verifier::external_body]
pub(crate) fn histogram_total(h: &LabelHistogram) -> (total: usize)
    requires
        stored_counts(*h).dom().finite(),
        sum_of(stored_counts(*h)) <= usize::MAX,
    ensures
        total == sum_of(stored_counts(*h)),
{
    h.inner.total_count()
}

} // verus!
