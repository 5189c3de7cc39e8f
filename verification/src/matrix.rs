//! The confusion matrix: per-label counts of correct and incorrect
//! classifications.

use crate::decimal::append_decimal;
use crate::histogram::{
    count_in, histogram_bump, histogram_count, histogram_labels, histogram_new, histogram_total,
    stored_counts, sum_of, LabelHistogram,
};
use crate::order::sorted_labels;
use crate::tally::Tally;
use std::collections::HashSet;
use vstd::multiset::Multiset;
use vstd::prelude::*;
use vstd::std_specs::iter::IteratorSpec;
use vstd::string::StringExecFns;

verus! {

/// The error rate as an exact fraction: `wrong` of `recorded`
/// classifications were incorrect. With `recorded == 0` there is no data
/// and the rate is undefined.
#[derive(Clone, Copy, Debug, PartialEq, Eq, Structural)]
pub struct ErrorRate {
    pub wrong: usize,
    pub recorded: usize,
}

/// Counts, for each true label, the correct and the incorrect
/// classifications of examples with that label.
pub struct ConfusionMatrix {
    label_2_right: LabelHistogram,
    label_2_wrong: LabelHistogram,
}

/// Every stored count is positive, so a label is stored exactly when it
/// has been counted.
spec fn all_positive(counts: Map<u64, nat>) -> bool {
    forall|label: u64| counts.dom().contains(label) ==> #[trigger] counts[label] > 0
}

impl View for ConfusionMatrix {
    type V = Tally;

    closed spec fn view(&self) -> Tally {
        Tally {
            right: Multiset::from_map(stored_counts(self.label_2_right)),
            wrong: Multiset::from_map(stored_counts(self.label_2_wrong)),
        }
    }
}

impl ConfusionMatrix {
    #[verifier::type_invariant]
    spec fn well_formed(&self) -> bool {
        &&& stored_counts(self.label_2_right).dom().finite()
        &&& stored_counts(self.label_2_wrong).dom().finite()
        &&& all_positive(stored_counts(self.label_2_right))
        &&& all_positive(stored_counts(self.label_2_wrong))
        &&& sum_of(stored_counts(self.label_2_right)) + sum_of(stored_counts(self.label_2_wrong))
            <= usize::MAX
    }

    /// A matrix in which nothing is recorded.
    pub fn new() -> (matrix: ConfusionMatrix)
        ensures
            matrix@ == Tally::empty(),
    {
        let label_2_right = histogram_new();
        let label_2_wrong = histogram_new();
        proof {
            lemma_nothing_counted();
        }
        ConfusionMatrix { label_2_right, label_2_wrong }
    }

    /// Records one classification under the true label of the example: as
    /// correct where the classifier gave that label, as incorrect where it
    /// gave any other.
    pub fn record(&mut self, img_label: u64, classification: u64)
        requires
            old(self)@.recorded() < usize::MAX,
        ensures
            final(self)@ == old(self)@.record(img_label, classification),
    {
        proof {
            use_type_invariant(&*self);
        }
        if classification == img_label {
            proof {
                lemma_bump(stored_counts(self.label_2_right), img_label);
            }
            histogram_bump(&mut self.label_2_right, &img_label);
        } else {
            proof {
                lemma_bump(stored_counts(self.label_2_wrong), img_label);
            }
            histogram_bump(&mut self.label_2_wrong, &img_label);
        }
    }

    /// Every label that a recorded example had as its true label.
    pub fn all_labels(&self) -> (labels: HashSet<u64>)
        ensures
            labels@ == self@.labels(),
    {
        broadcast use vstd::std_specs::hash::group_hash_axioms;
        proof {
            use_type_invariant(self);
            lemma_counted_labels(stored_counts(self.label_2_right));
            lemma_counted_labels(stored_counts(self.label_2_wrong));
        }
        let mut labels = histogram_labels(&self.label_2_wrong);
        let right_labels = histogram_labels(&self.label_2_right);
        let ghost wrong_labels = labels@;
        let ghost keys = right_labels.iter().remaining().unref();
        for label in it: right_labels.iter()
            invariant
                it.seq().unref() == keys,
                labels@ == wrong_labels.union(keys.take(it.index()).to_set()),
        {
            proof {
                assert(keys[it.index()] == *label);
                assert(keys.take(it.index() + 1) =~= keys.take(it.index()).push(*label));
                keys.take(it.index()).lemma_push_to_set_commute(*label);
            }
            labels.insert(*label);
        }
        proof {
            assert(keys.take(keys.len() as int) =~= keys);
        }
        labels
    }

    /// One line for each recorded label, in ascending order of the labels:
    /// the label, then how many of its examples were classified correctly
    /// and how many incorrectly.
    pub fn to_string(&self) -> (text: String)
        ensures
            text@ == self@.rendering(),
    {
        let labels = self.all_labels();
        let ordered = sorted_labels(&labels);
        let mut text = String::new();
        for i in 0..ordered.len()
            invariant
                text@ == self@.lines(ordered@.take(i as int)),
        {
            let label = ordered[i];
            let right = histogram_count(&self.label_2_right, &label);
            let wrong = histogram_count(&self.label_2_wrong, &label);
            proof {
                use_type_invariant(self);
                lemma_counted(stored_counts(self.label_2_right), label);
                lemma_counted(stored_counts(self.label_2_wrong), label);
                assert(ordered@.take(i + 1).drop_last() =~= ordered@.take(i as int));
            }
            append_decimal(&mut text, label);
            text.append(": ");
            append_decimal(&mut text, right as u64);
            text.append(" correct, ");
            append_decimal(&mut text, wrong as u64);
            text.append(" incorrect\n");
        }
        proof {
            assert(ordered@.take(ordered@.len() as int) =~= ordered@);
        }
        text
    }

    /// The incorrect classifications and all classifications, counted over
    /// all labels.
    pub fn error_rate(&self) -> (rate: ErrorRate)
        ensures
            rate.wrong == self@.total_wrong(),
            rate.recorded == self@.recorded(),
    {
        proof {
            use_type_invariant(self);
        }
        let total_right = histogram_total(&self.label_2_right);
        let total_wrong = histogram_total(&self.label_2_wrong);
        ErrorRate { wrong: total_wrong, recorded: total_right + total_wrong }
    }
}

/// The count that a finite histogram stores for `label` is the number of
/// times `label` occurs in the multiset of what it has counted.
proof fn lemma_counted(counts: Map<u64, nat>, label: u64)
    requires
        counts.dom().finite(),
    ensures
        Multiset::from_map(counts).count(label) == count_in(counts, label),
{
    if counts.dom().contains(label) {
        vstd::multiset::axiom_multiset_contained(counts, label);
    } else {
        vstd::multiset::axiom_multiset_new_not_contained(counts, label);
    }
}

/// A histogram that stores no label has counted nothing.
proof fn lemma_nothing_counted()
    ensures
        Multiset::from_map(Map::<u64, nat>::empty()) == Multiset::<u64>::empty(),
        sum_of(Map::<u64, nat>::empty()) == 0,
        all_positive(Map::<u64, nat>::empty()),
{
    broadcast use vstd::multiset::group_multiset_axioms;
    let none = Map::<u64, nat>::empty();
    assert forall|label: u64| Multiset::from_map(none).count(label) == 0 by {
        lemma_counted(none, label);
    }
    assert(Multiset::from_map(none) =~= Multiset::<u64>::empty());
}

/// With positive counts, the labels that a histogram stores are the
/// labels in the multiset of what it has counted.
proof fn lemma_counted_labels(counts: Map<u64, nat>)
    requires
        counts.dom().finite(),
        all_positive(counts),
    ensures
        Multiset::from_map(counts).dom() == counts.dom(),
{
    assert forall|label: u64|
        Multiset::from_map(counts).dom().contains(label) == counts.dom().contains(label) by {
        lemma_counted(counts, label);
        if counts.dom().contains(label) {
            assert(counts[label] > 0);
        }
    }
    assert(Multiset::from_map(counts).dom() =~= counts.dom());
}

/// Bumping `label` in a finite histogram puts one more `label` into the
/// multiset of what it has counted, and keeps the counts positive.
proof fn lemma_bump(counts: Map<u64, nat>, label: u64)
    requires
        counts.dom().finite(),
    ensures
        Multiset::from_map(counts.insert(label, count_in(counts, label) + 1))
            == Multiset::from_map(counts).insert(label),
        count_in(counts, label) <= sum_of(counts),
        sum_of(counts.insert(label, count_in(counts, label) + 1)) == sum_of(counts) + 1,
        all_positive(counts) ==> all_positive(counts.insert(label, count_in(counts, label) + 1)),
        counts.insert(label, count_in(counts, label) + 1).dom().finite(),
{
    broadcast use vstd::multiset::group_multiset_axioms;
    let bumped = counts.insert(label, count_in(counts, label) + 1);
    assert forall|other: u64|
        Multiset::from_map(bumped).count(other) == #[trigger] Multiset::from_map(counts).insert(
            label,
        ).count(other) by {
        lemma_counted(bumped, other);
        lemma_counted(counts, other);
    }
    assert(Multiset::from_map(bumped) =~= Multiset::from_map(counts).insert(label));
    lemma_counted(counts, label);
}

} // verus!
