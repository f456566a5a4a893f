//! The `n` best scores seen so far, and the least of them: the threshold a
//! top-`n` search prunes with.
//!
//! Scores are `u32` keys whose order is the scores' order.

use vstd::prelude::*;
use vstd::multiset::Multiset;

verus! {

broadcast use {vstd::multiset::group_multiset_axioms, vstd::seq_lib::group_to_multiset_ensures};

/// Every key in `m` is at least `t`.
pub open spec fn at_least(m: Multiset<u32>, t: u32) -> bool {
    forall|v: u32| m.count(v) > 0 ==> t <= v
}

/// `kept` holds the `n` largest of the keys in `seen` (all of them when
/// fewer than `n` were seen): it is part of `seen`, it has
/// `min(n, |seen|)` keys, and no key of `seen` left out exceeds a kept key.
pub open spec fn is_top_n(kept: Multiset<u32>, seen: Multiset<u32>, n: nat) -> bool {
    &&& kept.subset_of(seen)
    &&& kept.len() == if seen.len() < n {
        seen.len()
    } else {
        n
    }
    &&& forall|d: u32, k: u32|
        seen.count(d) > kept.count(d) && kept.count(k) > 0 ==> d <= k
}

/// `t` is a least key of `m`.
pub open spec fn is_least(m: Multiset<u32>, t: u32) -> bool {
    m.count(t) > 0 && at_least(m, t)
}

/// A multiset has at most one least key.
pub proof fn least_is_unique(m: Multiset<u32>, a: u32, b: u32)
    requires
        is_least(m, a),
        is_least(m, b),
    ensures
        a == b,
{
}

/// What one push does to the kept keys `k0` with room for `n`: the key joins
/// them, and when they were full, one least key of the result leaves.
pub open spec fn top_step(k0: Multiset<u32>, k1: Multiset<u32>, n: nat, key: u32) -> bool {
    if k0.len() == n {
        exists|m: u32| is_least(k0.insert(key), m) && k1 == k0.insert(key).remove(m)
    } else {
        k1 == k0.insert(key)
    }
}

/// The `n` largest keys pushed so far.
pub struct TopScores {
    keys: Vec<u32>,
    n: usize,
    seen: Ghost<Multiset<u32>>,
}

impl TopScores {
    /// The kept keys.
    pub closed spec fn kept(&self) -> Multiset<u32> {
        self.keys@.to_multiset()
    }

    /// Every key pushed so far.
    pub closed spec fn seen(&self) -> Multiset<u32> {
        self.seen@
    }

    /// How many keys are kept at most.
    pub closed spec fn capacity(&self) -> nat {
        self.n as nat
    }

    /// Internal consistency.
    pub closed spec fn inv(&self) -> bool {
        &&& self.keys@.len() <= self.n
        &&& self.keys@.len() < self.n ==> self.kept() =~= self.seen@
        &&& self.keys@.len() == self.n ==> self.seen@.len() >= self.n
        &&& self.kept().subset_of(self.seen@)
        &&& forall|d: u32, k: u32|
            self.seen@.count(d) > self.kept().count(d) && self.kept().count(k) > 0 ==> d <= k
    }

    /// Whether as many keys are kept as the capacity allows.
    pub open spec fn is_full(&self) -> bool {
        self.kept().len() == self.capacity()
    }

    /// The invariant gives the top-`n` law.
    pub proof fn lemma_top_n(&self)
        requires
            self.inv(),
        ensures
            is_top_n(self.kept(), self.seen(), self.capacity()),
            self.is_full() <==> self.kept().len() == self.capacity(),
            self.kept().len() <= self.capacity(),
    {
        if self.keys@.len() < self.n {
            assert(self.kept() =~= self.seen@);
        }
    }

    /// An empty set of kept keys with room for `n`.
    pub fn new(n: usize) -> (r: TopScores)
        ensures
            r.inv(),
            r.capacity() == n,
            r.kept() =~= Multiset::empty(),
            r.seen() =~= Multiset::empty(),
    {
        let r = TopScores { keys: Vec::new(), n, seen: Ghost(Multiset::empty()) };
        assert(r.keys@.to_multiset() =~= Multiset::empty());
        r
    }

    /// How many keys are kept at most.
    pub fn capacity_of(&self) -> (r: usize)
        ensures
            r == self.capacity(),
    {
        self.n
    }

    /// How many keys are kept.
    pub fn len(&self) -> (r: usize)
        requires
            self.inv(),
        ensures
            r == self.kept().len(),
    {
        self.keys.len()
    }

    /// Adds `key`; when more than `n` keys are then kept, one least key goes.
    pub fn push(&mut self, key: u32)
        requires
            old(self).inv(),
        ensures
            final(self).inv(),
            final(self).capacity() == old(self).capacity(),
            final(self).seen() == old(self).seen().insert(key),
            is_top_n(final(self).kept(), final(self).seen(), final(self).capacity()),
            old(self).capacity() >= 1 ==> final(self).kept().len() >= 1,
            old(self).is_full() ==> final(self).is_full(),
            !old(self).is_full() ==> final(self).kept() =~= old(self).kept().insert(key),
            top_step(old(self).kept(), final(self).kept(), old(self).capacity(), key),
            final(self).kept().subset_of(old(self).kept().insert(key)),
            forall|t: u32|
                old(self).is_full() && at_least(old(self).kept(), t) ==> at_least(
                    final(self).kept(),
                    t,
                ),
    {
        let ghost k0 = self.keys@;
        let ghost s0 = self.seen@;
        self.keys.push(key);
        self.seen = Ghost(s0.insert(key));
        let ghost k1 = self.keys@;
        assert(k1 == k0.push(key));
        assert(k1.to_multiset() =~= k0.to_multiset().insert(key));
        if self.keys.len() > self.n {
            let j = min_index(&self.keys);
            let ghost m = k1[j as int];
            assert(k1.contains(m));
            assert forall|v: u32| k1.to_multiset().count(v) > 0 implies m <= v by {
                assert(k1.contains(v));
                let i = choose|i: int| 0 <= i < k1.len() && k1[i] == v;
                assert(k1[i] == v);
            }
            self.keys.remove(j);
            assert(self.keys@ == k1.remove(j as int));
            assert(self.keys@.to_multiset() =~= k1.to_multiset().remove(m));
            assert(is_least(k0.to_multiset().insert(key), m));
            assert(k0.to_multiset().len() == self.n);
            proof {
                let kk0 = k0.to_multiset();
                let kk = self.keys@.to_multiset();
                assert forall|d: u32, k: u32|
                    self.seen@.count(d) > kk.count(d) && kk.count(k) > 0 implies d <= k by {
                    if d != m {
                        assert(s0.count(d) > kk0.count(d));
                        if kk0.count(k) == 0 {
                            assert(k == key);
                            assert(kk0.len() >= 1);
                            let w = kk0.choose();
                            assert(kk0.count(w) > 0);
                            if key < d {
                                assert(m == key);
                            }
                        }
                    }
                }
                assert forall|t: u32|
                    k0.len() == self.n && at_least(kk0, t) implies at_least(kk, t) by {
                    assert forall|v: u32| kk.count(v) > 0 implies t <= v by {
                        if kk0.count(v) == 0 {
                            assert(v == key);
                            if key < t {
                                assert(kk0.count(m) == 0 ==> m == key);
                                if kk0.count(m) > 0 {
                                    assert(t <= m);
                                }
                            }
                        }
                    }
                }
            }
        } else {
            proof {
                assert(k0.len() < self.n);
            }
        }
        proof {
            self.lemma_top_n();
        }
    }

    /// The least kept key: the threshold a hit must beat to enter.
    pub fn threshold(&self) -> (r: u32)
        requires
            self.inv(),
            self.kept().len() > 0,
        ensures
            self.kept().count(r) > 0,
            at_least(self.kept(), r),
    {
        let j = min_index(&self.keys);
        let ghost k = self.keys@;
        assert(k.contains(k[j as int]));
        assert forall|v: u32| k.to_multiset().count(v) > 0 implies k[j as int] <= v by {
            assert(k.contains(v));
            let i = choose|i: int| 0 <= i < k.len() && k[i] == v;
            assert(k[i] == v);
        }
        self.keys[j]
    }
}

/// The index of a least element of `s`.
fn min_index(s: &Vec<u32>) -> (j: usize)
    requires
        s@.len() > 0,
    ensures
        j < s@.len(),
        forall|i: int| 0 <= i < s@.len() ==> s@[j as int] <= s@[i],
{
    let mut j: usize = 0;
    let mut i: usize = 1;
    while i < s.len()
        invariant
            1 <= i <= s@.len(),
            j < i,
            forall|t: int| 0 <= t < i ==> s@[j as int] <= s@[t],
        decreases s@.len() - i,
    {
        if s[i] < s[j] {
            j = i;
        }
        i = i + 1;
    }
    j
}

} // verus!
