use vstd::prelude::*;

use crate::metrics::F1;

verus! {

/// How one prediction counts for one digit class.
#[derive(Clone, Copy, Debug, PartialEq, Eq, Structural)]
pub enum Outcome {
    TruePositive,
    FalsePositive,
    FalseNegative,
    TrueNegative,
}

/// The outcome, for `digit`, of predicting `prediction` for an image labelled `label`.
pub open spec fn outcome(prediction: usize, label: u8, digit: u8) -> Outcome {
    if prediction == digit as usize && label == digit {
        Outcome::TruePositive
    } else if prediction == digit as usize {
        Outcome::FalsePositive
    } else if label == digit {
        Outcome::FalseNegative
    } else {
        Outcome::TrueNegative
    }
}

/// Number of the first `n` test images whose outcome for `digit` is `kind`.
pub open spec fn count_outcomes(
    predictions: Seq<usize>,
    labels: Seq<u8>,
    digit: u8,
    kind: Outcome,
    n: nat,
) -> nat
    decreases n,
{
    if n == 0 {
        0
    } else {
        count_outcomes(predictions, labels, digit, kind, (n - 1) as nat) + if outcome(
            predictions[n - 1],
            labels[n - 1],
            digit,
        ) == kind {
            1nat
        } else {
            0nat
        }
    }
}

/// Number of the first `n` test images whose label equals the prediction
/// narrowed to a byte.
pub open spec fn count_correct(predictions: Seq<usize>, labels: Seq<u8>, n: nat) -> nat
    decreases n,
{
    if n == 0 {
        0
    } else {
        count_correct(predictions, labels, (n - 1) as nat) + if labels[n - 1] == predictions[n
            - 1] as u8 {
            1nat
        } else {
            0nat
        }
    }
}

/// Number of the first `n` predictions that name `digit`.
pub open spec fn count_predicted(predictions: Seq<usize>, digit: u8, n: nat) -> nat
    decreases n,
{
    if n == 0 {
        0
    } else {
        count_predicted(predictions, digit, (n - 1) as nat) + if predictions[n - 1]
            == digit as usize {
            1nat
        } else {
            0nat
        }
    }
}

/// Number of the first `n` labels equal to `digit`.
pub open spec fn count_labelled(labels: Seq<u8>, digit: u8, n: nat) -> nat
    decreases n,
{
    if n == 0 {
        0
    } else {
        count_labelled(labels, digit, (n - 1) as nat) + if labels[n - 1] == digit {
            1nat
        } else {
            0nat
        }
    }
}

/// Sum of the true positives of the digits below `k`, over the first `n` images.
pub open spec fn sum_true_positives(
    predictions: Seq<usize>,
    labels: Seq<u8>,
    n: nat,
    k: nat,
) -> nat
    decreases k,
{
    if k == 0 {
        0
    } else {
        sum_true_positives(predictions, labels, n, (k - 1) as nat) + count_outcomes(
            predictions,
            labels,
            (k - 1) as u8,
            Outcome::TruePositive,
            n,
        )
    }
}

/// `m` holds the counts of `digit` over the first `n` test images.
pub open spec fn tallies(
    m: F1,
    predictions: Seq<usize>,
    labels: Seq<u8>,
    digit: u8,
    n_train: u32,
    n: nat,
) -> bool {
    &&& m.digit == digit
    &&& m.n_train == n_train
    &&& m.tpos == count_outcomes(predictions, labels, digit, Outcome::TruePositive, n)
    &&& m.fpos == count_outcomes(predictions, labels, digit, Outcome::FalsePositive, n)
    &&& m.fneg == count_outcomes(predictions, labels, digit, Outcome::FalseNegative, n)
}

/// The per-digit counts and the number of correct predictions over a test set.
pub struct Evaluation {
    pub metrics: Vec<F1>,
    pub score: u64,
}

/// An image is a true positive of a digit when it is both predicted as and
/// labelled with the digit, a false positive when predicted as the digit but
/// labelled otherwise, a false negative when labelled with the digit but
/// predicted otherwise, and a true negative when neither.
pub proof fn lemma_outcome_classifies(prediction: usize, label: u8, digit: u8)
    ensures
        outcome(prediction, label, digit) == Outcome::TruePositive <==> prediction == digit as usize
            && label == digit,
        outcome(prediction, label, digit) == Outcome::FalsePositive <==> prediction
            == digit as usize && label != digit,
        outcome(prediction, label, digit) == Outcome::FalseNegative <==> prediction
            != digit as usize && label == digit,
        outcome(prediction, label, digit) == Outcome::TrueNegative <==> prediction
            != digit as usize && label != digit,
{
}

/// Each count starts at zero and goes up by one exactly at the images that
/// meet its condition (and stays put at the others), which determines it.
pub proof fn lemma_counts_step(predictions: Seq<usize>, labels: Seq<u8>, digit: u8, n: nat)
    ensures
        count_correct(predictions, labels, 0) == 0,
        count_predicted(predictions, digit, 0) == 0,
        count_labelled(labels, digit, 0) == 0,
        forall|kind: Outcome| #[trigger] count_outcomes(predictions, labels, digit, kind, 0) == 0,
        count_correct(predictions, labels, n + 1) == count_correct(predictions, labels, n) + if labels[n as int]
            == predictions[n as int] as u8 {
            1nat
        } else {
            0nat
        },
        count_predicted(predictions, digit, n + 1) == count_predicted(predictions, digit, n) + if predictions[n as int]
            == digit as usize {
            1nat
        } else {
            0nat
        },
        count_labelled(labels, digit, n + 1) == count_labelled(labels, digit, n) + if labels[n as int]
            == digit {
            1nat
        } else {
            0nat
        },
        count_outcomes(predictions, labels, digit, Outcome::TruePositive, n + 1) == count_outcomes(
            predictions,
            labels,
            digit,
            Outcome::TruePositive,
            n,
        ) + if predictions[n as int] == digit as usize && labels[n as int] == digit {
            1nat
        } else {
            0nat
        },
        count_outcomes(predictions, labels, digit, Outcome::FalsePositive, n + 1) == count_outcomes(
            predictions,
            labels,
            digit,
            Outcome::FalsePositive,
            n,
        ) + if predictions[n as int] == digit as usize && labels[n as int] != digit {
            1nat
        } else {
            0nat
        },
        count_outcomes(predictions, labels, digit, Outcome::FalseNegative, n + 1) == count_outcomes(
            predictions,
            labels,
            digit,
            Outcome::FalseNegative,
            n,
        ) + if predictions[n as int] != digit as usize && labels[n as int] == digit {
            1nat
        } else {
            0nat
        },
{
}

/// A count over `n` images is at most `n`; it is `n` when every image meets its
/// condition and 0 when none does.
pub proof fn lemma_count_outcomes_range(
    predictions: Seq<usize>,
    labels: Seq<u8>,
    digit: u8,
    kind: Outcome,
    n: nat,
)
    ensures
        count_outcomes(predictions, labels, digit, kind, n) <= n,
        (forall|i: int| 0 <= i < n ==> #[trigger] outcome(predictions[i], labels[i], digit) == kind)
            ==> count_outcomes(predictions, labels, digit, kind, n) == n,
        (forall|i: int| 0 <= i < n ==> #[trigger] outcome(predictions[i], labels[i], digit) != kind)
            ==> count_outcomes(predictions, labels, digit, kind, n) == 0,
        count_correct(predictions, labels, n) <= n,
        (forall|i: int| 0 <= i < n ==> #[trigger] labels[i] == predictions[i] as u8)
            ==> count_correct(predictions, labels, n) == n,
    decreases n,
{
    if n > 0 {
        lemma_count_outcomes_range(predictions, labels, digit, kind, (n - 1) as nat);
        let m = (n - 1) as int;
        if forall|i: int| 0 <= i < n ==> #[trigger] outcome(predictions[i], labels[i], digit) == kind {
            assert(outcome(predictions[m], labels[m], digit) == kind);
            assert(forall|i: int| 0 <= i < n - 1 ==> #[trigger] outcome(predictions[i], labels[i], digit) == kind);
        }
        if forall|i: int| 0 <= i < n ==> #[trigger] outcome(predictions[i], labels[i], digit) != kind {
            assert(outcome(predictions[m], labels[m], digit) != kind);
            assert(forall|i: int| 0 <= i < n - 1 ==> #[trigger] outcome(predictions[i], labels[i], digit) != kind);
        }
        if forall|i: int| 0 <= i < n ==> #[trigger] labels[i] == predictions[i] as u8 {
            assert(labels[m] == predictions[m] as u8);
            assert(forall|i: int| 0 <= i < n - 1 ==> #[trigger] labels[i] == predictions[i] as u8);
        }
    }
}

/// Every image has exactly one outcome for a digit; true and false positives
/// together are the images predicted as the digit, true positives and false
/// negatives together are the images labelled with it.
pub proof fn lemma_outcomes_partition(
    predictions: Seq<usize>,
    labels: Seq<u8>,
    digit: u8,
    n: nat,
)
    ensures
        count_outcomes(predictions, labels, digit, Outcome::TruePositive, n) + count_outcomes(
            predictions,
            labels,
            digit,
            Outcome::FalsePositive,
            n,
        ) == count_predicted(predictions, digit, n),
        count_outcomes(predictions, labels, digit, Outcome::TruePositive, n) + count_outcomes(
            predictions,
            labels,
            digit,
            Outcome::FalseNegative,
            n,
        ) == count_labelled(labels, digit, n),
        count_outcomes(predictions, labels, digit, Outcome::TruePositive, n) + count_outcomes(
            predictions,
            labels,
            digit,
            Outcome::FalsePositive,
            n,
        ) + count_outcomes(predictions, labels, digit, Outcome::FalseNegative, n)
            + count_outcomes(predictions, labels, digit, Outcome::TrueNegative, n) == n,
    decreases n,
{
    if n > 0 {
        lemma_outcomes_partition(predictions, labels, digit, (n - 1) as nat);
    }
}

/// Adding image `n` adds one to the sum of true positives of the digits below
/// `k` exactly when it is predicted correctly and its label is below `k`.
proof fn lemma_sum_true_positives_step(
    predictions: Seq<usize>,
    labels: Seq<u8>,
    n: nat,
    k: nat,
)
    requires
        k <= 256,
    ensures
        sum_true_positives(predictions, labels, n + 1, k) == sum_true_positives(
            predictions,
            labels,
            n,
            k,
        ) + if predictions[n as int] == labels[n as int] as usize && labels[n as int] < k {
            1nat
        } else {
            0nat
        },
    decreases k,
{
    if k > 0 {
        lemma_sum_true_positives_step(predictions, labels, n, (k - 1) as nat);
    }
}

/// Over no image, every digit has zero true positives.
proof fn lemma_sum_true_positives_empty(predictions: Seq<usize>, labels: Seq<u8>, k: nat)
    ensures
        sum_true_positives(predictions, labels, 0, k) == 0,
    decreases k,
{
    if k > 0 {
        lemma_sum_true_positives_empty(predictions, labels, (k - 1) as nat);
    }
}

/// When every label is a digit and every prediction fits in a byte, the true
/// positives of the ten digits add up to the number of correct predictions.
pub proof fn lemma_true_positives_sum_to_score(
    predictions: Seq<usize>,
    labels: Seq<u8>,
    n: nat,
)
    requires
        n <= predictions.len(),
        n <= labels.len(),
        forall|i: int| 0 <= i < n ==> labels[i] < 10 && predictions[i] < 256,
    ensures
        sum_true_positives(predictions, labels, n, 10) == count_correct(predictions, labels, n),
    decreases n,
{
    if n > 0 {
        let m = (n - 1) as nat;
        lemma_true_positives_sum_to_score(predictions, labels, m);
        lemma_sum_true_positives_step(predictions, labels, m, 10);
        let p = predictions[m as int];
        assert(p < 256);
        let l = labels[m as int];
        assert(p as u8 == p);
        assert((l == p as u8) <==> (p == l as usize && l < 10));
    } else {
        lemma_sum_true_positives_empty(predictions, labels, 10);
    }
}

/// For a record that holds the counts of `digit` over the first `n` images,
/// the denominator of its precision is the number of images predicted as the
/// digit and the denominator of its recall the number of images labelled with it.
pub proof fn lemma_metric_denominators(
    m: F1,
    predictions: Seq<usize>,
    labels: Seq<u8>,
    digit: u8,
    n_train: u32,
    n: nat,
)
    requires
        tallies(m, predictions, labels, digit, n_train, n),
    ensures
        m.precision_ratio().den == count_predicted(predictions, digit, n),
        m.recall_ratio().den == count_labelled(labels, digit, n),
{
    lemma_outcomes_partition(predictions, labels, digit, n);
}

/// Counts, for each digit, the true positives, false positives and false
/// negatives of `predictions` against `labels`, and the number of images whose
/// label equals the prediction.
pub fn evaluate_predictions(predictions: &[usize], labels: &[u8], n_train: u32) -> (e: Evaluation)
    requires
        predictions@.len() <= labels@.len(),
    ensures
        e.metrics@.len() == 10,
        forall|d: int|
            0 <= d < 10 ==> tallies(
                #[trigger] e.metrics@[d],
                predictions@,
                labels@,
                d as u8,
                n_train,
                predictions@.len(),
            ),
        e.score == count_correct(predictions@, labels@, predictions@.len()),
        e.score <= predictions@.len(),
        forall|d: int|
            0 <= d < 10 ==> (#[trigger] e.metrics@[d]).tpos + e.metrics@[d].fpos
                + e.metrics@[d].fneg <= predictions@.len(),
{
    let mut metrics: Vec<F1> = Vec::new();
    let mut d: u8 = 0;
    while d < 10
        invariant
            d <= 10,
            metrics@.len() == d,
            forall|k: int|
                0 <= k < d ==> tallies(#[trigger] metrics@[k], predictions@, labels@, k as u8, n_train, 0),
        decreases 10 - d,
    {
        metrics.push(F1::new(d, n_train));
        d = d + 1;
    }
    let n = predictions.len();
    let mut score: u64 = 0;
    let mut i: usize = 0;
    while i < n
        invariant
            n == predictions@.len(),
            n <= labels@.len(),
            i <= n,
            metrics@.len() == 10,
            forall|k: int|
                0 <= k < 10 ==> tallies(#[trigger] metrics@[k], predictions@, labels@, k as u8, n_train, i as nat),
            score == count_correct(predictions@, labels@, i as nat),
            score <= i,
        decreases n - i,
    {
        let p = predictions[i];
        let l = labels[i];
        let mut j: usize = 0;
        while j < 10
            invariant
                n == predictions@.len(),
                n <= labels@.len(),
                i < n,
                p == predictions@[i as int],
                l == labels@[i as int],
                j <= 10,
                metrics@.len() == 10,
                forall|k: int|
                    0 <= k < j ==> tallies(
                        #[trigger] metrics@[k],
                        predictions@,
                        labels@,
                        k as u8,
                        n_train,
                        (i + 1) as nat,
                    ),
                forall|k: int|
                    j <= k < 10 ==> tallies(#[trigger] metrics@[k], predictions@, labels@, k as u8, n_train, i as nat),
            decreases 10 - j,
        {
            let mut m = metrics[j];
            proof {
                lemma_outcomes_partition(predictions@, labels@, j as u8, i as nat);
            }
            if p == m.digit as usize && l == m.digit {
                m.tpos = m.tpos + 1;
            } else if p == m.digit as usize && l != m.digit {
                m.fpos = m.fpos + 1;
            } else if p != m.digit as usize && l == m.digit {
                m.fneg = m.fneg + 1;
            }
            metrics.set(j, m);
            j = j + 1;
        }
        if l == p as u8 {
            score = score + 1;
        }
        i = i + 1;
    }
    proof {
        assert forall|d: int| 0 <= d < 10 implies (#[trigger] metrics@[d]).tpos + metrics@[d].fpos
            + metrics@[d].fneg <= n by {
            lemma_outcomes_partition(predictions@, labels@, d as u8, n as nat);
        }
    }
    Evaluation { metrics, score }
}

} // verus!
