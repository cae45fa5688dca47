use vstd::prelude::*;

use crate::labels::indicator;

verus! {

/// The one-hot row of `label`: ten entries, a 1 at index `label` and 0 elsewhere.
pub open spec fn one_hot_row(label: u8) -> Seq<u8> {
    Seq::new(10, |j: int| if j == label as int { 1u8 } else { 0u8 })
}

/// Sum of the entries of `s`.
pub open spec fn seq_sum(s: Seq<u8>) -> int
    decreases s.len(),
{
    if s.len() == 0 {
        0
    } else {
        seq_sum(s.drop_last()) + s.last()
    }
}

/// Encodes each label as a row of ten entries holding a single 1 at the
/// label's index (for example, 2 becomes `0 0 1 0 0 0 0 0 0 0`).
pub fn one_hot_encode(trn_labels: &[u8]) -> (one_hot: Vec<Vec<u8>>)
    requires
        forall|i: int| 0 <= i < trn_labels@.len() ==> trn_labels@[i] < 10,
    ensures
        one_hot@.len() == trn_labels@.len(),
        forall|i: int|
            0 <= i < trn_labels@.len() ==> (#[trigger] one_hot@[i])@ == one_hot_row(trn_labels@[i]),
        forall|i: int| 0 <= i < trn_labels@.len() ==> (#[trigger] one_hot@[i])@.len() == 10,
        forall|i: int, j: int|
            0 <= i < trn_labels@.len() && 0 <= j < 10 ==> #[trigger] one_hot@[i]@[j] == if j
                == trn_labels@[i] as int {
                1u8
            } else {
                0u8
            },
{
    let mut one_hot: Vec<Vec<u8>> = Vec::new();
    let mut lbl_idx: usize = 0;
    while lbl_idx < trn_labels.len()
        invariant
            lbl_idx <= trn_labels@.len(),
            one_hot@.len() == lbl_idx,
            forall|i: int|
                0 <= i < lbl_idx ==> (#[trigger] one_hot@[i])@ == one_hot_row(trn_labels@[i]),
        decreases trn_labels@.len() - lbl_idx,
    {
        let label = trn_labels[lbl_idx];
        let mut row: Vec<u8> = Vec::new();
        let mut j: u8 = 0;
        while j < 10
            invariant
                j <= 10,
                row@ == one_hot_row(label).take(j as int),
            decreases 10 - j,
        {
            if j == label {
                row.push(1);
            } else {
                row.push(0);
            }
            j = j + 1;
        }
        assert(row@ =~= one_hot_row(label));
        one_hot.push(row);
        lbl_idx = lbl_idx + 1;
    }
    one_hot
}

/// A one-hot row has ten entries: a 1 at the label's index and 0 at each other.
pub proof fn lemma_one_hot_row_entries(label: u8)
    ensures
        one_hot_row(label).len() == 10,
        forall|j: int| 0 <= j < 10 ==> (#[trigger] one_hot_row(label)[j] == 1u8 <==> j == label),
        forall|j: int| 0 <= j < 10 ==> (#[trigger] one_hot_row(label)[j] == 0u8 <==> j != label),
{
}

/// Sum of the first `k` entries of a one-hot row.
proof fn lemma_one_hot_prefix_sum(label: u8, k: int)
    requires
        0 <= k <= 10,
    ensures
        seq_sum(one_hot_row(label).take(k)) == if (label as int) < k { 1int } else { 0int },
    decreases k,
{
    if k > 0 {
        lemma_one_hot_prefix_sum(label, k - 1);
        assert(one_hot_row(label).take(k).drop_last() =~= one_hot_row(label).take(k - 1));
    }
}

/// A one-hot row of a digit holds exactly one 1, at the digit's index, and
/// column `digit` of the one-hot encoding of `labels` is the 0/1 target of the
/// one-against-the-rest classifier for `digit`.
pub proof fn lemma_one_hot_columns_are_indicators(labels: Seq<u8>, digit: u8)
    requires
        digit < 10,
        forall|i: int| 0 <= i < labels.len() ==> labels[i] < 10,
    ensures
        forall|i: int|
            0 <= i < labels.len() ==> #[trigger] one_hot_row(labels[i])[digit as int] == indicator(
                labels,
                digit,
            )[i],
        forall|i: int| 0 <= i < labels.len() ==> seq_sum(#[trigger] one_hot_row(labels[i])) == 1,
{
    assert forall|i: int| 0 <= i < labels.len() implies seq_sum(
        #[trigger] one_hot_row(labels[i]),
    ) == 1 by {
        lemma_one_hot_prefix_sum(labels[i], 10);
        assert(one_hot_row(labels[i]).take(10) =~= one_hot_row(labels[i]));
    }
}

} // verus!
