//! The mathematical model of a confusion matrix: which true labels were
//! classified correctly, and which were not, each as often as it happened.

use crate::decimal::decimal;
use crate::order::ascending;
use vstd::multiset::Multiset;
use vstd::prelude::*;

verus! {

/// A classification outcome: the true label of an example, then the label
/// that the classifier gave it.
pub type Outcome = (u64, u64);

/// What a confusion matrix has recorded. Both multisets hold true labels:
/// `right` one for each correct classification, `wrong` one for each
/// incorrect one, whatever label the example was mistaken for.
pub struct Tally {
    pub right: Multiset<u64>,
    pub wrong: Multiset<u64>,
}

impl Tally {
    /// The tally in which nothing is recorded.
    pub open spec fn empty() -> Tally {
        Tally { right: Multiset::empty(), wrong: Multiset::empty() }
    }

    /// The tally after one more outcome.
    pub open spec fn record(self, true_label: u64, predicted: u64) -> Tally {
        if predicted == true_label {
            Tally { right: self.right.insert(true_label), wrong: self.wrong }
        } else {
            Tally { right: self.right, wrong: self.wrong.insert(true_label) }
        }
    }

    /// How often `label` was the true label of a correct classification.
    pub open spec fn right_count(self, label: u64) -> nat {
        self.right.count(label)
    }

    /// How often `label` was the true label of an incorrect classification.
    pub open spec fn wrong_count(self, label: u64) -> nat {
        self.wrong.count(label)
    }

    /// Every label with at least one recorded outcome.
    pub open spec fn labels(self) -> Set<u64> {
        self.right.dom().union(self.wrong.dom())
    }

    /// The number of correct classifications.
    pub open spec fn total_right(self) -> nat {
        self.right.len()
    }

    /// The number of incorrect classifications.
    pub open spec fn total_wrong(self) -> nat {
        self.wrong.len()
    }

    /// The number of recorded outcomes.
    pub open spec fn recorded(self) -> nat {
        self.right.len() + self.wrong.len()
    }

    /// The report on one label: the label, a colon, its count of correct
    /// classifications, its count of incorrect ones, and a line break.
    pub open spec fn line(self, label: u64) -> Seq<char> {
        decimal(label as nat) + ": "@ + decimal(self.right_count(label)) + " correct, "@ + decimal(
            self.wrong_count(label),
        ) + " incorrect\n"@
    }

    /// The reports on `labels`, one after the other.
    pub open spec fn lines(self, labels: Seq<u64>) -> Seq<char>
        decreases labels.len(),
    {
        if labels.len() == 0 {
            Seq::empty()
        } else {
            self.lines(labels.drop_last()) + self.line(labels.last())
        }
    }

    /// The report on every recorded label, in ascending order of the
    /// labels.
    pub open spec fn rendering(self) -> Seq<char> {
        self.lines(ascending(self.labels()))
    }
}

/// The tally of a sequence of outcomes, recorded one after the other.
pub open spec fn tally_of(outcomes: Seq<Outcome>) -> Tally {
    outcomes.fold_left(Tally::empty(), |t: Tally, o: Outcome| t.record(o.0, o.1))
}

/// The labels that occur as the true label of an outcome.
pub open spec fn true_labels(outcomes: Seq<Outcome>) -> Set<u64> {
    Set::new(|label: u64| exists|i: int| 0 <= i < outcomes.len() && #[trigger] outcomes[i].0 == label)
}

/// Whether the true label of an outcome is `label`.
pub open spec fn has_true_label(label: u64) -> spec_fn(Outcome) -> bool {
    |o: Outcome| o.0 == label
}

/// The outcomes whose true label is `label`.
pub open spec fn with_true_label(outcomes: Seq<Outcome>, label: u64) -> Seq<Outcome> {
    outcomes.filter(has_true_label(label))
}

/// Recording one more outcome is recording it in the tally of those
/// before it.
pub proof fn lemma_tally_push(outcomes: Seq<Outcome>, last: Outcome)
    ensures
        tally_of(outcomes.push(last)) == tally_of(outcomes).record(last.0, last.1),
{
    assert(outcomes.push(last).drop_last() =~= outcomes);
}

/// The tally of no outcomes is empty.
pub proof fn lemma_tally_none()
    ensures
        tally_of(Seq::empty()) == Tally::empty(),
{
}

/// The labels of a tally are the true labels of the recorded outcomes,
/// whether they were classified correctly or not.
pub proof fn lemma_tally_labels(outcomes: Seq<Outcome>)
    ensures
        tally_of(outcomes).labels() == true_labels(outcomes),
    decreases outcomes.len(),
{
    broadcast use vstd::multiset::group_multiset_axioms;
    if outcomes.len() > 0 {
        let before = outcomes.drop_last();
        let last = outcomes.last();
        lemma_tally_labels(before);
        assert(before.push(last) =~= outcomes);
        lemma_tally_push(before, last);
        assert forall|label: u64| tally_of(outcomes).labels().contains(label) == true_labels(
            outcomes,
        ).contains(label) by {
            assert(tally_of(before).labels().contains(label) == true_labels(before).contains(label));
            if true_labels(before).contains(label) {
                let i = choose|i: int| 0 <= i < before.len() && #[trigger] before[i].0 == label;
                assert(outcomes[i].0 == label);
            }
            if true_labels(outcomes).contains(label) {
                let i = choose|i: int| 0 <= i < outcomes.len() && #[trigger] outcomes[i].0 == label;
                if i < before.len() {
                    assert(before[i].0 == label);
                }
            }
            assert(outcomes[outcomes.len() - 1].0 == last.0);
        }
    }
    assert(tally_of(outcomes).labels() =~= true_labels(outcomes));
}

/// For each label, the correct and the incorrect classifications add up to
/// the recorded outcomes with that true label.
pub proof fn lemma_tally_counts(outcomes: Seq<Outcome>, label: u64)
    ensures
        tally_of(outcomes).right_count(label) + tally_of(outcomes).wrong_count(label)
            == with_true_label(outcomes, label).len(),
    decreases outcomes.len(),
{
    broadcast use vstd::multiset::group_multiset_axioms;
    if outcomes.len() > 0 {
        let before = outcomes.drop_last();
        let last = outcomes.last();
        lemma_tally_counts(before, label);
        assert(before.push(last) =~= outcomes);
        lemma_tally_push(before, last);
        before.lemma_filter_push(last, has_true_label(label));
    } else {
        outcomes.lemma_filter_len(has_true_label(label));
    }
}

/// A tally has recorded as many outcomes as the sequence holds.
pub proof fn lemma_tally_recorded(outcomes: Seq<Outcome>)
    ensures
        tally_of(outcomes).recorded() == outcomes.len(),
    decreases outcomes.len(),
{
    broadcast use vstd::multiset::group_multiset_axioms;
    if outcomes.len() > 0 {
        let before = outcomes.drop_last();
        let last = outcomes.last();
        lemma_tally_recorded(before);
        assert(before.push(last) =~= outcomes);
        lemma_tally_push(before, last);
    }
}

/// The order in which outcomes are recorded does not matter: the same
/// outcomes, each as often, give the same tally and the same rendering.
pub proof fn lemma_tally_permutation(first: Seq<Outcome>, second: Seq<Outcome>)
    requires
        first.to_multiset() == second.to_multiset(),
    ensures
        tally_of(first) == tally_of(second),
        tally_of(first).rendering() == tally_of(second).rendering(),
{
    let step = |t: Tally, o: Outcome| t.record(o.0, o.1);
    assert forall|x: Outcome, y: Outcome, t: Tally| #[trigger] step(step(t, x), y) == step(step(t, y), x) by {
        broadcast use vstd::multiset::group_multiset_axioms;
        assert(step(step(t, x), y).right =~= step(step(t, y), x).right);
        assert(step(step(t, x), y).wrong =~= step(step(t, y), x).wrong);
    }
    vstd::seq_lib::lemma_fold_left_permutation(first, second, step, Tally::empty());
}

/// Where every classification is correct, no outcome is recorded as
/// incorrect.
pub proof fn lemma_all_right(outcomes: Seq<Outcome>)
    requires
        forall|i: int| 0 <= i < outcomes.len() ==> (#[trigger] outcomes[i]).1 == outcomes[i].0,
    ensures
        tally_of(outcomes).total_wrong() == 0,
        tally_of(outcomes).total_right() == outcomes.len(),
    decreases outcomes.len(),
{
    broadcast use vstd::multiset::group_multiset_axioms;
    if outcomes.len() > 0 {
        let before = outcomes.drop_last();
        let last = outcomes.last();
        assert forall|i: int| 0 <= i < before.len() implies (#[trigger] before[i]).1 == before[i].0 by {
            assert(before[i] == outcomes[i]);
        }
        lemma_all_right(before);
        assert(before.push(last) =~= outcomes);
        lemma_tally_push(before, last);
    }
}

/// Where every classification is incorrect, every outcome is recorded as
/// incorrect.
pub proof fn lemma_all_wrong(outcomes: Seq<Outcome>)
    requires
        forall|i: int| 0 <= i < outcomes.len() ==> (#[trigger] outcomes[i]).1 != outcomes[i].0,
    ensures
        tally_of(outcomes).total_right() == 0,
        tally_of(outcomes).total_wrong() == outcomes.len(),
    decreases outcomes.len(),
{
    broadcast use vstd::multiset::group_multiset_axioms;
    if outcomes.len() > 0 {
        let before = outcomes.drop_last();
        let last = outcomes.last();
        assert forall|i: int| 0 <= i < before.len() implies (#[trigger] before[i]).1 != before[i].0 by {
            assert(before[i] == outcomes[i]);
        }
        lemma_all_wrong(before);
        assert(before.push(last) =~= outcomes);
        lemma_tally_push(before, last);
    }
}

} // verus!
