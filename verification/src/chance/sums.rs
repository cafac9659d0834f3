use vstd::prelude::*;

verus! {

/// The sum of all entries of `s`.
pub open spec fn total(s: Seq<int>) -> int
    decreases s.len(),
{
    if s.len() == 0 {
        0
    } else {
        total(s.drop_last()) + s.last()
    }
}

/// Replacing one entry changes the sum by the difference of the two values.
pub proof fn lemma_total_update(s: Seq<int>, j: int, v: int)
    requires
        0 <= j < s.len(),
    ensures
        total(s.update(j, v)) == total(s) - s[j] + v,
    decreases s.len(),
{
    if j == s.len() - 1 {
        assert(s.update(j, v).drop_last() =~= s.drop_last());
    } else {
        lemma_total_update(s.drop_last(), j, v);
        assert(s.update(j, v).drop_last() =~= s.drop_last().update(j, v));
    }
}

/// A sequence of zeros sums to zero.
pub proof fn lemma_total_zeros(s: Seq<int>)
    requires
        forall|j: int| 0 <= j < s.len() ==> s[j] == 0,
    ensures
        total(s) == 0,
    decreases s.len(),
{
    if s.len() > 0 {
        lemma_total_zeros(s.drop_last());
    }
}

/// Where no entry is negative, the sum is not negative, and it is zero only if every entry is.
pub proof fn lemma_total_nonneg(s: Seq<int>)
    requires
        forall|j: int| 0 <= j < s.len() ==> s[j] >= 0,
    ensures
        total(s) >= 0,
        total(s) == 0 ==> forall|j: int| 0 <= j < s.len() ==> s[j] == 0,
    decreases s.len(),
{
    if s.len() > 0 {
        lemma_total_nonneg(s.drop_last());
        if total(s) == 0 {
            assert forall|j: int| 0 <= j < s.len() implies s[j] == 0 by {
                if j < s.len() - 1 {
                    assert(s.drop_last()[j] == s[j]);
                }
            }
        }
    }
}

/// Where no entry is positive, the sum is not positive, and it is zero only if every entry is.
pub proof fn lemma_total_nonpos(s: Seq<int>)
    requires
        forall|j: int| 0 <= j < s.len() ==> s[j] <= 0,
    ensures
        total(s) <= 0,
        total(s) == 0 ==> forall|j: int| 0 <= j < s.len() ==> s[j] == 0,
    decreases s.len(),
{
    if s.len() > 0 {
        lemma_total_nonpos(s.drop_last());
        if total(s) == 0 {
            assert forall|j: int| 0 <= j < s.len() implies s[j] == 0 by {
                if j < s.len() - 1 {
                    assert(s.drop_last()[j] == s[j]);
                }
            }
        }
    }
}

} // verus!
