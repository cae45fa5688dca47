use vstd::prelude::*;

verus! {

/// The 0/1 target of a one-against-the-rest classifier for `digit`: entry `i`
/// is 1 exactly when `labels[i]` is `digit`.
pub open spec fn indicator(labels: Seq<u8>, digit: u8) -> Seq<u8> {
    Seq::new(labels.len(), |i: int| if labels[i] == digit { 1u8 } else { 0u8 })
}

/// The target has exactly one entry per label, and entry `i` is 1 when label
/// `i` is the digit and 0 otherwise; so a label set gives as many 1 entries as
/// it has labels equal to the digit, and targets of distinct digits never
/// both hold 1 at the same entry.
pub proof fn lemma_indicator_entries(labels: Seq<u8>, digit: u8, other: u8)
    ensures
        indicator(labels, digit).len() == labels.len(),
        forall|i: int|
            0 <= i < labels.len() ==> (#[trigger] indicator(labels, digit)[i] == 1u8 <==> labels[i]
                == digit),
        forall|i: int|
            0 <= i < labels.len() ==> (#[trigger] indicator(labels, digit)[i] == 0u8 <==> labels[i]
                != digit),
        digit != other ==> forall|i: int|
            0 <= i < labels.len() ==> !(#[trigger] indicator(labels, digit)[i] == 1u8
                && indicator(labels, other)[i] == 1u8),
{
}

/// Marks the labels equal to `digit_to_train` with 1 and all others with 0.
pub fn prepare_trn_lbl(trn_lbl: &[u8], digit_to_train: u8) -> (r: Vec<u8>)
    ensures
        r@ == indicator(trn_lbl@, digit_to_train),
        r@.len() == trn_lbl@.len(),
        forall|i: int|
            0 <= i < trn_lbl@.len() ==> #[trigger] r@[i] == if trn_lbl@[i] == digit_to_train {
                1u8
            } else {
                0u8
            },
{
    let mut r: Vec<u8> = Vec::new();
    let mut i: usize = 0;
    while i < trn_lbl.len()
        invariant
            i <= trn_lbl@.len(),
            r@ == indicator(trn_lbl@, digit_to_train).take(i as int),
        decreases trn_lbl@.len() - i,
    {
        if trn_lbl[i] == digit_to_train {
            r.push(1);
        } else {
            r.push(0);
        }
        i = i + 1;
    }
    assert(indicator(trn_lbl@, digit_to_train).take(trn_lbl@.len() as int) =~= indicator(
        trn_lbl@,
        digit_to_train,
    ));
    r
}

} // verus!
