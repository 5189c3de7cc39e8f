//! The interface of a trainable classifier, and its evaluation against
//! labelled examples.

use crate::matrix::ConfusionMatrix;
use crate::tally::{lemma_all_right, lemma_all_wrong, lemma_tally_push, tally_of, Outcome};
use vstd::prelude::*;

verus! {

/// The outcomes of classifying `examples` one after the other: each true
/// label with the label that `predicted` gives the example.
pub open spec fn outcomes<I>(predicted: spec_fn(I) -> u64, examples: Seq<(u64, I)>) -> Seq<
    Outcome,
> {
    Seq::new(examples.len(), |i: int| (examples[i].0, predicted(examples[i].1)))
}

/// A classifier over examples of type `I`, with `u64` labels.
pub trait Classifier<I> {
    /// The label that the classifier, as it stands, gives `example`. An
    /// implementation says here what its `classify` computes; where it
    /// does not, nothing is known of the label.
    open spec fn predicted(&self, example: &I) -> u64 {
        arbitrary()
    }

    /// Learns from labelled examples.
    fn train(&mut self, training_images: &Vec<(u64, I)>);

    /// The label of `example`.
    fn classify(&self, example: &I) -> (label: u64)
        ensures
            label == self.predicted(example),
    ;

    /// Classifies every example of `testing_images`, first to last, and
    /// records each outcome under the true label of its example.
    fn test(&self, testing_images: &[(u64, I)]) -> (result: ConfusionMatrix)
        ensures
            result@ == tally_of(outcomes(|example: I| self.predicted(&example), testing_images@)),
            result@.recorded() == testing_images@.len(),
    {
        let mut result = ConfusionMatrix::new();
        let mut count: usize = 0;
        while count < testing_images.len()
            invariant
                count <= testing_images@.len(),
                result@ == tally_of(
                    outcomes(|example: I| self.predicted(&example), testing_images@).take(
                        count as int,
                    ),
                ),
                result@.recorded() == count,
            decreases testing_images@.len() - count,
        {
            let test_img = &testing_images[count];
            let classification = self.classify(&test_img.1);
            proof {
                let all = outcomes(|example: I| self.predicted(&example), testing_images@);
                assert(all.take(count + 1) =~= all.take(count as int).push(
                    (test_img.0, classification),
                ));
                lemma_tally_push(all.take(count as int), (test_img.0, classification));
            }
            result.record(test_img.0, classification);
            count += 1;
        }
        proof {
            let all = outcomes(|example: I| self.predicted(&example), testing_images@);
            assert(all.take(all.len() as int) =~= all);
        }
        result
    }
}

/// A classifier that gives every example its true label is never recorded
/// as incorrect.
pub proof fn lemma_always_right<I, C: Classifier<I>>(classifier: &C, examples: Seq<(u64, I)>)
    requires
        forall|i: int|
            0 <= i < examples.len() ==> classifier.predicted(&(#[trigger] examples[i]).1)
                == examples[i].0,
    ensures
        tally_of(outcomes(|example: I| classifier.predicted(&example), examples)).total_wrong()
            == 0,
        tally_of(outcomes(|example: I| classifier.predicted(&example), examples)).total_right()
            == examples.len(),
{
    lemma_all_right(outcomes(|example: I| classifier.predicted(&example), examples));
}

/// A classifier that gives no example its true label, such as one that
/// gives every example one label that none of them has, is recorded as
/// incorrect every time.
pub proof fn lemma_always_wrong<I, C: Classifier<I>>(classifier: &C, examples: Seq<(u64, I)>)
    requires
        forall|i: int|
            0 <= i < examples.len() ==> classifier.predicted(&(#[trigger] examples[i]).1)
                != examples[i].0,
    ensures
        tally_of(outcomes(|example: I| classifier.predicted(&example), examples)).total_right()
            == 0,
        tally_of(outcomes(|example: I| classifier.predicted(&example), examples)).total_wrong()
            == examples.len(),
{
    lemma_all_wrong(outcomes(|example: I| classifier.predicted(&example), examples));
}

/// The percentage to report once `count` of `len` examples are done: one
/// report for each twentieth of the examples, none at all for fewer than
/// twenty examples.
pub open spec fn progress(count: nat, len: nat) -> Option<nat> {
    let twentieth = len / 20;
    if twentieth > 0 && count > 0 && count % twentieth == 0 {
        Some(count * 5 / twentieth)
    } else {
        None
    }
}

/// The percentage to report once `count` of `len` examples are done, if
/// one is due.
pub fn progress_percent(count: usize, len: usize) -> (percent: Option<usize>)
    requires
        count <= len,
    ensures
        percent matches Some(p) ==> progress(count as nat, len as nat) == Some(p as nat),
        percent is None ==> progress(count as nat, len as nat) is None,
        len < 20 ==> percent is None,
{
    let twentieth = len / 20;
    if twentieth > 0 && count > 0 && count % twentieth == 0 {
        let steps = count / twentieth;
        proof {
            lemma_steps(count as int, len as int);
        }
        Some(5 * steps)
    } else {
        None
    }
}

/// A count that is a multiple of the twentieth is at most forty
/// twentieths, and five times the number of twentieths is the percentage.
proof fn lemma_steps(count: int, len: int)
    requires
        0 < count <= len,
        len / 20 > 0,
        count % (len / 20) == 0,
    ensures
        count / (len / 20) <= 40,
        5 * (count / (len / 20)) == count * 5 / (len / 20),
{
    let t = len / 20;
    let k = count / t;
    assert(count == k * t) by {
        vstd::arithmetic::div_mod::lemma_fundamental_div_mod(count, t);
        assert(t * k == k * t) by (nonlinear_arith);
    }
    assert(len < 20 * t + 20);
    assert(20 * t + 20 <= 40 * t);
    assert(k <= 40) by (nonlinear_arith)
        requires
            count == k * t,
            count < 40 * t + 1,
            t > 0,
    ;
    assert(count * 5 == (5 * k) * t) by (nonlinear_arith)
        requires
            count == k * t,
    ;
    vstd::arithmetic::div_mod::lemma_div_multiples_vanish(5 * k, t);
}

} // verus!
