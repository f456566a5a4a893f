//! A collector that counts every hit one by one, with no shortcut.

use vstd::prelude::*;

verus! {

/// The sum of `s`.
pub open spec fn sum(s: Seq<u64>) -> int
    decreases s.len(),
{
    if s.len() == 0 {
        0
    } else {
        sum(s.drop_last()) + s.last()
    }
}

proof fn lemma_sum_nonneg_mono(s: Seq<u64>, i: int)
    requires
        0 <= i <= s.len(),
    ensures
        0 <= sum(s.take(i)) <= sum(s),
    decreases s.len(),
{
    if s.len() > 0 {
        if i == s.len() {
            assert(s.take(i) =~= s);
            lemma_sum_nonneg_mono(s.drop_last(), s.len() - 1);
            assert(s.drop_last().take(s.len() - 1) =~= s.drop_last());
        } else {
            lemma_sum_nonneg_mono(s.drop_last(), i);
            assert(s.drop_last().take(i) =~= s.take(i));
        }
    } else {
        assert(s.take(i) =~= s);
    }
}

proof fn lemma_sum_concat(a: Seq<u64>, b: Seq<u64>)
    ensures
        sum(a + b) == sum(a) + sum(b),
    decreases b.len(),
{
    if b.len() == 0 {
        assert(a + b =~= a);
    } else {
        assert((a + b).drop_last() =~= a + b.drop_last());
        lemma_sum_concat(a, b.drop_last());
    }
}

proof fn lemma_sum_remove(s: Seq<u64>, i: int)
    requires
        0 <= i < s.len(),
    ensures
        sum(s) == sum(s.remove(i)) + s[i],
{
    let t = s.take(i);
    let u = s.skip(i + 1);
    assert(s =~= t + (seq![s[i]] + u));
    assert(s.remove(i) =~= t + u);
    let one = seq![s[i]];
    assert(one.drop_last() =~= Seq::<u64>::empty());
    assert(sum(Seq::<u64>::empty()) == 0);
    assert(sum(one) == sum(one.drop_last()) + one.last());
    assert(sum(one) == s[i]);
    lemma_sum_concat(t, seq![s[i]] + u);
    lemma_sum_concat(seq![s[i]], u);
    lemma_sum_concat(t, u);
}

/// Merging is additive: the total of two lists of segment counts put
/// together is the sum of their totals.
pub proof fn merge_is_additive(a: Seq<u64>, b: Seq<u64>)
    ensures
        sum(a + b) == sum(a) + sum(b),
{
    lemma_sum_concat(a, b);
}

/// Merging does not depend on the order of the segment counts: lists holding
/// the same counts, in any order, have the same total.
pub proof fn merge_ignores_order(a: Seq<u64>, b: Seq<u64>)
    requires
        a.to_multiset() == b.to_multiset(),
    ensures
        sum(a) == sum(b),
    decreases a.len(),
{
    broadcast use {vstd::multiset::group_multiset_axioms, vstd::seq_lib::group_to_multiset_ensures};

    if a.len() == 0 {
        assert(a.to_multiset().len() == 0);
        assert(b.to_multiset().len() == b.len());
        assert(b =~= Seq::<u64>::empty());
    } else {
        let x = a.last();
        let a1 = a.drop_last();
        assert(a =~= a1.push(x));
        assert(a.to_multiset().count(x) > 0);
        assert(b.contains(x));
        let j = choose|j: int| 0 <= j < b.len() && b[j] == x;
        let b1 = b.remove(j);
        assert(b1.to_multiset() =~= b.to_multiset().remove(x));
        assert(a1.to_multiset() =~= a.to_multiset().remove(x));
        merge_ignores_order(a1, b1);
        lemma_sum_remove(b, j);
    }
}

/// The per-segment part of the count: how many hits it was given.
pub struct UnoptimizedCountSegmentCollector(pub u64);

impl UnoptimizedCountSegmentCollector {
    /// Counts one hit.
    pub fn collect(&mut self, doc: u32)
        requires
            old(self).0 < u64::MAX,
        ensures
            final(self).0 == old(self).0 + 1,
            collect_step(*old(self), *final(self)),
    {
        self.0 = self.0 + 1;
    }

    /// The number of hits counted.
    pub fn harvest(self) -> (r: u64)
        ensures
            r == self.0,
    {
        self.0
    }
}

/// What one `collect` does: the count grows by one.
pub open spec fn collect_step(
    c0: UnoptimizedCountSegmentCollector,
    c1: UnoptimizedCountSegmentCollector,
) -> bool {
    c1.0 == c0.0 + 1
}

/// A collector's count is the number of `collect` calls since `for_segment`
/// made it: over a run of collectors, each the previous one after a
/// `collect`, starting from a fresh one, the last counts the steps taken, and
/// `harvest` returns that count.
pub proof fn harvest_counts_collects(run: Seq<UnoptimizedCountSegmentCollector>)
    requires
        run.len() > 0,
        run[0].0 == 0,
        forall|i: int| 0 <= i < run.len() - 1 ==> collect_step(#[trigger] run[i], run[i + 1]),
    ensures
        run.last().0 == run.len() - 1,
    decreases run.len(),
{
    if run.len() > 1 {
        let r = run.drop_last();
        assert forall|i: int| 0 <= i < r.len() - 1 implies collect_step(#[trigger] r[i], r[i + 1]) by {
            assert(r[i] == run[i] && r[i + 1] == run[i + 1]);
        }
        harvest_counts_collects(r);
        assert(collect_step(run[run.len() - 2], run[run.len() - 1]));
    }
}

/// Counts matching documents by collecting each of them.
pub struct UnoptimizedCount;

impl UnoptimizedCount {
    /// A fresh count for one segment.
    pub fn for_segment(&self) -> (r: UnoptimizedCountSegmentCollector)
        ensures
            r.0 == 0,
    {
        UnoptimizedCountSegmentCollector(0)
    }

    /// Counting needs no scores.
    pub fn requires_scoring(&self) -> (r: bool)
        ensures
            !r,
    {
        false
    }

    /// The total over the segments: their sum, or `None` when it does not
    /// fit in a `u64`.
    pub fn merge_fruits(&self, segment_fruits: &Vec<u64>) -> (r: Option<u64>)
        ensures
            r matches Some(t) ==> t == sum(segment_fruits@),
            r is None <==> sum(segment_fruits@) > u64::MAX,
    {
        let mut total: u64 = 0;
        let mut i: usize = 0;
        while i < segment_fruits.len()
            invariant
                i <= segment_fruits@.len(),
                total == sum(segment_fruits@.take(i as int)),
            decreases segment_fruits@.len() - i,
        {
            proof {
                assert(segment_fruits@.take(i + 1).drop_last() =~= segment_fruits@.take(i as int));
            }
            let x = segment_fruits[i];
            if total > u64::MAX - x {
                proof {
                    lemma_sum_nonneg_mono(segment_fruits@, i + 1);
                }
                return None;
            }
            total = total + x;
            i = i + 1;
        }
        proof {
            assert(segment_fruits@.take(i as int) =~= segment_fruits@);
        }
        Some(total)
    }
}

} // verus!
