use vstd::prelude::*;

verus! {

/// `r` is the length of the longest prefix of `significant` made of `true` only.
pub open spec fn is_leading_run(significant: Seq<bool>, r: int) -> bool {
    &&& 0 <= r <= significant.len()
    &&& forall|i: int| 0 <= i < r ==> significant[i]
    &&& r < significant.len() ==> !significant[r]
}

/// Numerical rank of a column-pivoted QR factorisation: entry `i` of
/// `significant` tells whether the magnitude of the diagonal entry `R[i][i]`
/// exceeds the tolerance, and the rank is the number of leading significant
/// entries, counted until the first that is not.
pub fn leading_rank(significant: &[bool]) -> (rank: usize)
    ensures
        is_leading_run(significant@, rank as int),
        rank <= significant@.len(),
        forall|i: int| 0 <= i < rank ==> significant@[i],
        rank < significant@.len() ==> !significant@[rank as int],
        (forall|i: int| 0 <= i < significant@.len() ==> significant@[i]) ==> rank
            == significant@.len(),
{
    let mut rank: usize = 0;
    while rank < significant.len() && significant[rank]
        invariant
            rank <= significant@.len(),
            forall|i: int| 0 <= i < rank ==> significant@[i],
        decreases significant@.len() - rank,
    {
        rank = rank + 1;
    }
    rank
}

/// The rank counts every leading significant entry and no more: it never
/// exceeds the number of entries, every entry before it is significant, the
/// entry at it (if any) is not, and when all entries are significant the rank
/// is the full number of entries.
pub proof fn lemma_leading_run_counts_all_leading_entries(significant: Seq<bool>, r: int)
    requires
        is_leading_run(significant, r),
    ensures
        0 <= r <= significant.len(),
        forall|i: int| 0 <= i < r ==> significant[i],
        r < significant.len() ==> !significant[r],
        (forall|i: int| 0 <= i < significant.len() ==> significant[i]) ==> r == significant.len(),
{
    if (forall|i: int| 0 <= i < significant.len() ==> significant[i]) && r < significant.len() {
        assert(significant[r]);
    }
}

/// Every sequence of flags has a leading run.
pub proof fn lemma_leading_run_exists(significant: Seq<bool>) -> (r: int)
    ensures
        is_leading_run(significant, r),
        0 <= r <= significant.len(),
    decreases significant.len(),
{
    if significant.len() == 0 {
        0
    } else if !significant[0] {
        0
    } else {
        let rest = significant.drop_first();
        let k = lemma_leading_run_exists(rest);
        assert forall|i: int| 0 <= i < k + 1 implies significant[i] by {
            if i > 0 {
                assert(significant[i] == rest[i - 1]);
            }
        }
        if k + 1 < significant.len() {
            assert(significant[k + 1] == rest[k]);
        }
        k + 1
    }
}

/// The leading run is unique: it is determined by the flags alone.
pub proof fn lemma_leading_run_unique(significant: Seq<bool>, r: int, s: int)
    requires
        is_leading_run(significant, r),
        is_leading_run(significant, s),
    ensures
        r == s,
{
    if r < s {
        assert(significant[r]);
    } else if s < r {
        assert(significant[s]);
    }
}

} // verus!
