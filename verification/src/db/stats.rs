//! Totals of the catalog's statistics.
use vstd::prelude::*;

use crate::db::models::Count;

verus! {

/// The sum of the counts of a list of count rows.
pub open spec fn sum_of(c: Seq<Count>) -> int
    decreases c.len(),
{
    if c.len() == 0 {
        0
    } else {
        sum_of(c.drop_last()) + c.last().count
    }
}

/// The total of a list of counts (one per board game, of its expansions),
/// or `None` when it does not fit in a `u32`.
pub fn sum_counts(counts: &Vec<Count>) -> (total: Option<u32>)
    ensures
        sum_of(counts@) <= u32::MAX ==> total == Some(sum_of(counts@) as u32),
        sum_of(counts@) > u32::MAX ==> total is None,
{
    let mut total: u32 = 0;
    let n = counts.len();
    for i in 0..n
        invariant
            n == counts@.len(),
            total == sum_of(counts@.take(i as int)),
    {
        proof {
            assert(counts@.take(i + 1).drop_last() == counts@.take(i as int));
        }
        match total.checked_add(counts[i].count) {
            Some(t) => total = t,
            None => {
                proof {
                    lemma_sum_prefix_grows(counts@, i + 1);
                }
                return None;
            },
        }
    }
    assert(counts@.take(n as int) == counts@);
    Some(total)
}

/// Totals add up: the total of no row is zero, that of one row is its
/// count, and the total of two lists one after the other is the sum of
/// their totals, so every row adds its count, repeated values included.
pub proof fn law_sum_is_additive(a: Seq<Count>, b: Seq<Count>, c: Count)
    ensures
        sum_of(Seq::<Count>::empty()) == 0,
        sum_of(seq![c]) == c.count,
        sum_of(a + b) == sum_of(a) + sum_of(b),
    decreases b.len(),
{
    assert(seq![c].drop_last() =~= Seq::<Count>::empty());
    if b.len() == 0 {
        assert(a + b =~= a);
    } else {
        law_sum_is_additive(a, b.drop_last(), c);
        assert((a + b).drop_last() =~= a + b.drop_last());
        assert((a + b).last() == b.last());
    }
}

/// A list's sum is at least the sum of any of its prefixes.
proof fn lemma_sum_prefix_grows(c: Seq<Count>, k: int)
    requires
        0 <= k <= c.len(),
    ensures
        sum_of(c.take(k)) <= sum_of(c),
    decreases c.len(),
{
    if k < c.len() {
        lemma_sum_prefix_grows(c.drop_last(), k);
        assert(c.drop_last().take(k) == c.take(k));
    } else {
        assert(c.take(k) == c);
    }
}

} // verus!
