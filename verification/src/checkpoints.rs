//! Checkpoints of a top-`n` walk over scored documents: where the threshold
//! of the `n` best scores moved, with and without the pruning that hands the
//! threshold back to the scorer.
//!
//! Scores are `u32` keys whose order is the scores' order.

use vstd::prelude::*;
use vstd::multiset::Multiset;

use crate::top_scores::{at_least, is_least, is_top_n, least_is_unique, top_step, TopScores};

verus! {

broadcast use {vstd::multiset::group_multiset_axioms, vstd::seq_lib::group_to_multiset_ensures};

/// A document that was looked at, the limit it was compared with, and its score.
#[derive(PartialEq, Eq, Structural, Debug, Clone, Copy)]
pub struct Checkpoint {
    pub doc: u32,
    pub limit: u32,
    pub score: u32,
}

/// The scores of the checkpoints, in order.
pub open spec fn scores_of(cps: Seq<Checkpoint>) -> Seq<u32> {
    cps.map_values(|c: Checkpoint| c.score)
}

proof fn lemma_scores_push(cps: Seq<Checkpoint>, c: Checkpoint)
    ensures
        scores_of(cps.push(c)).to_multiset() =~= scores_of(cps).to_multiset().insert(c.score),
{
    assert(scores_of(cps.push(c)) =~= scores_of(cps).push(c.score));
}

/// The documents and scores of the checkpoints, in order.
pub open spec fn docs_and_scores(cps: Seq<Checkpoint>) -> Seq<(u32, u32)> {
    cps.map_values(|c: Checkpoint| (c.doc, c.score))
}

/// What one hit does to a pruned walk `p0`, giving `p1` and the threshold
/// `limit`: the hit is recorded with its score as its limit, its score joins
/// the best ones (one least score leaving when they were full), and the
/// threshold is the least of the best scores.
pub open spec fn hit_step(
    p0: PruningCheckpoints,
    p1: PruningCheckpoints,
    doc: u32,
    score: u32,
    limit: u32,
) -> bool {
    &&& p1.inv()
    &&& p1.capacity() == p0.capacity()
    &&& p1.recorded() == p0.recorded().push(Checkpoint { doc, limit: score, score })
    &&& top_step(p0.kept(), p1.kept(), p0.capacity(), score)
    &&& is_least(p1.kept(), limit)
}

/// What looking at one document does to an unpruned walk `s0`, giving `s1`:
/// a document that beats the limit is recorded with that limit, its score
/// joins the best ones (one least score leaving when they were full), and the
/// limit becomes the least of the best scores; any other document changes
/// nothing.
pub open spec fn doc_step(s0: ScanCheckpoints, s1: ScanCheckpoints, doc: u32, score: u32) -> bool {
    &&& s1.inv()
    &&& s1.capacity() == s0.capacity()
    &&& s1.initial_limit() == s0.initial_limit()
    &&& if score > s0.current_limit() {
        &&& s1.recorded() == s0.recorded().push(
            Checkpoint { doc, limit: s0.current_limit(), score },
        )
        &&& top_step(s0.kept(), s1.kept(), s0.capacity(), score)
        &&& is_least(s1.kept(), s1.current_limit())
    } else {
        &&& s1.recorded() == s0.recorded()
        &&& s1.kept() == s0.kept()
        &&& s1.current_limit() == s0.current_limit()
    }
}

/// A pruned walk `p`, whose scorer now prunes with `threshold`, and an
/// unpruned walk `s` over the same documents are in step: they have recorded
/// the same documents with the same scores, keep the same best scores, and
/// the unpruned walk's limit is the threshold.
pub open spec fn in_step(p: PruningCheckpoints, s: ScanCheckpoints, threshold: u32) -> bool {
    &&& p.inv()
    &&& s.inv()
    &&& p.capacity() == s.capacity()
    &&& docs_and_scores(p.recorded()) == docs_and_scores(s.recorded())
    &&& p.kept() == s.kept()
    &&& threshold == s.current_limit()
}

/// Two fresh walks with the same capacity are in step, the scorer pruning
/// with the unpruned walk's starting limit.
pub proof fn walks_start_in_step(p: PruningCheckpoints, s: ScanCheckpoints)
    requires
        p.inv(),
        s.inv(),
        p.capacity() == s.capacity(),
        p.recorded().len() == 0,
        s.recorded().len() == 0,
    ensures
        in_step(p, s, s.initial_limit()),
{
    p.lemma_top_n();
    s.lemma_recorded();
    assert(scores_of(p.recorded()) =~= Seq::<u32>::empty());
    assert(scores_of(s.recorded()) =~= Seq::<u32>::empty());
    assert(p.kept() =~= Multiset::empty());
    assert(s.kept() =~= Multiset::empty());
    assert(docs_and_scores(p.recorded()) =~= docs_and_scores(s.recorded()));
}

/// The pruned and unpruned walks record the same documents with the same
/// scores: from walks in step, let the unpruned walk look at a document, and
/// let the scorer hand it to the pruned walk exactly when its score beats the
/// threshold (which then becomes the threshold the pruned walk gives back);
/// the walks are again in step. By induction over the documents, walks that
/// start in step record the same documents and scores throughout.
pub proof fn walks_stay_in_step(
    p0: PruningCheckpoints,
    p1: PruningCheckpoints,
    s0: ScanCheckpoints,
    s1: ScanCheckpoints,
    threshold: u32,
    doc: u32,
    score: u32,
    limit: u32,
)
    requires
        in_step(p0, s0, threshold),
        doc_step(s0, s1, doc, score),
        score > threshold ==> hit_step(p0, p1, doc, score, limit),
        score <= threshold ==> p1 == p0,
    ensures
        in_step(
            p1,
            s1,
            if score > threshold {
                limit
            } else {
                threshold
            },
        ),
{
    if score > threshold {
        let k = p0.kept().insert(score);
        if p0.kept().len() == p0.capacity() {
            let m1 = choose|m: u32| is_least(k, m) && p1.kept() == k.remove(m);
            let m2 = choose|m: u32| is_least(k, m) && s1.kept() == k.remove(m);
            least_is_unique(k, m1, m2);
        }
        assert(p1.kept() == s1.kept());
        least_is_unique(p1.kept(), limit, s1.current_limit());
        let c1 = Checkpoint { doc, limit: score, score };
        let c2 = Checkpoint { doc, limit: s0.current_limit(), score };
        assert(docs_and_scores(p0.recorded().push(c1)) =~= docs_and_scores(p0.recorded()).push(
            (doc, score),
        ));
        assert(docs_and_scores(s0.recorded().push(c2)) =~= docs_and_scores(s0.recorded()).push(
            (doc, score),
        ));
    }
}

/// `ps` are the states of a pruned walk over the scored documents `hits`,
/// and `thresholds` the thresholds the scorer prunes with: the scorer hands a
/// document to the walk exactly when its score beats the threshold, and the
/// walk's answer (`limits[i]`) becomes the threshold.
pub open spec fn pruned_run(
    ps: Seq<PruningCheckpoints>,
    thresholds: Seq<u32>,
    limits: Seq<u32>,
    hits: Seq<(u32, u32)>,
) -> bool {
    &&& ps.len() == hits.len() + 1
    &&& thresholds.len() == hits.len() + 1
    &&& limits.len() == hits.len()
    &&& forall|i: int|
        #![trigger hits[i]]
        0 <= i < hits.len() ==> if hits[i].1 > thresholds[i] {
            &&& hit_step(ps[i], ps[i + 1], hits[i].0, hits[i].1, limits[i])
            &&& thresholds[i + 1] == limits[i]
        } else {
            &&& ps[i + 1] == ps[i]
            &&& thresholds[i + 1] == thresholds[i]
        }
}

/// `ss` are the states of an unpruned walk that looks at each of `hits` in turn.
pub open spec fn scan_run(ss: Seq<ScanCheckpoints>, hits: Seq<(u32, u32)>) -> bool {
    &&& ss.len() == hits.len() + 1
    &&& forall|i: int|
        #![trigger hits[i]]
        0 <= i < hits.len() ==> doc_step(ss[i], ss[i + 1], hits[i].0, hits[i].1)
}

proof fn lemma_runs_in_step(
    ps: Seq<PruningCheckpoints>,
    ss: Seq<ScanCheckpoints>,
    thresholds: Seq<u32>,
    limits: Seq<u32>,
    hits: Seq<(u32, u32)>,
    k: int,
)
    requires
        pruned_run(ps, thresholds, limits, hits),
        scan_run(ss, hits),
        in_step(ps[0], ss[0], thresholds[0]),
        0 <= k <= hits.len(),
    ensures
        in_step(ps[k], ss[k], thresholds[k]),
    decreases k,
{
    if k > 0 {
        lemma_runs_in_step(ps, ss, thresholds, limits, hits, k - 1);
        let i = k - 1;
        let h = hits[i];
        walks_stay_in_step(
            ps[i],
            ps[i + 1],
            ss[i],
            ss[i + 1],
            thresholds[i],
            h.0,
            h.1,
            limits[i],
        );
    }
}

/// The pruned and unpruned walks over the same scored documents record the
/// same documents with the same scores, and end with the same best scores
/// and the same threshold, when both start fresh with the same capacity and
/// the scorer starts pruning from the unpruned walk's starting limit.
pub proof fn walks_record_the_same_hits(
    ps: Seq<PruningCheckpoints>,
    ss: Seq<ScanCheckpoints>,
    thresholds: Seq<u32>,
    limits: Seq<u32>,
    hits: Seq<(u32, u32)>,
)
    requires
        pruned_run(ps, thresholds, limits, hits),
        scan_run(ss, hits),
        ps[0].inv(),
        ss[0].inv(),
        ps[0].capacity() == ss[0].capacity(),
        ps[0].recorded().len() == 0,
        ss[0].recorded().len() == 0,
        thresholds[0] == ss[0].initial_limit(),
    ensures
        forall|k: int| 0 <= k <= hits.len() ==> #[trigger] in_step(ps[k], ss[k], thresholds[k]),
        docs_and_scores(ps.last().recorded()) == docs_and_scores(ss.last().recorded()),
        ps.last().kept() == ss.last().kept(),
        thresholds.last() == ss.last().current_limit(),
{
    walks_start_in_step(ps[0], ss[0]);
    assert forall|k: int| 0 <= k <= hits.len() implies #[trigger] in_step(
        ps[k],
        ss[k],
        thresholds[k],
    ) by {
        lemma_runs_in_step(ps, ss, thresholds, limits, hits, k);
    }
    assert(in_step(ps[hits.len() as int], ss[hits.len() as int], thresholds[hits.len() as int]));
}

/// The checkpoints of a pruned walk: the scorer calls back with each
/// document that beats the threshold, and gets the new threshold back.
pub struct PruningCheckpoints {
    top: TopScores,
    checkpoints: Vec<Checkpoint>,
}

impl PruningCheckpoints {
    /// The checkpoints recorded so far.
    pub closed spec fn recorded(&self) -> Seq<Checkpoint> {
        self.checkpoints@
    }

    /// The best scores kept.
    pub closed spec fn kept(&self) -> Multiset<u32> {
        self.top.kept()
    }

    /// How many scores are kept at most.
    pub closed spec fn capacity(&self) -> nat {
        self.top.capacity()
    }

    /// Whether as many scores are kept as the capacity allows.
    pub open spec fn is_full(&self) -> bool {
        self.kept().len() == self.capacity()
    }

    /// Internal consistency: the kept scores are the top of the recorded ones.
    pub closed spec fn inv(&self) -> bool {
        &&& self.top.inv()
        &&& self.top.seen() =~= scores_of(self.checkpoints@).to_multiset()
    }

    /// What the walk keeps: every hit is recorded with its score as its
    /// limit, and the kept scores are the best of the recorded ones.
    pub proof fn lemma_top_n(&self)
        requires
            self.inv(),
        ensures
            is_top_n(self.kept(), scores_of(self.recorded()).to_multiset(), self.capacity()),
            self.kept().len() <= self.capacity(),
    {
        self.top.lemma_top_n();
    }

    /// A walk that keeps the `n` best scores.
    pub fn new(n: usize) -> (r: PruningCheckpoints)
        ensures
            r.inv(),
            r.capacity() == n,
            r.recorded() == Seq::<Checkpoint>::empty(),
    {
        let r = PruningCheckpoints { top: TopScores::new(n), checkpoints: Vec::new() };
        assert(scores_of(r.checkpoints@) =~= Seq::<u32>::empty());
        r
    }

    /// Records a hit and gives the threshold to prune with: the least of the
    /// `n` best scores so far.
    pub fn on_hit(&mut self, doc: u32, score: u32) -> (limit: u32)
        requires
            old(self).inv(),
            old(self).capacity() >= 1,
        ensures
            final(self).inv(),
            final(self).capacity() == old(self).capacity(),
            final(self).recorded() == old(self).recorded().push(
                Checkpoint { doc, limit: score, score },
            ),
            is_top_n(
                final(self).kept(),
                scores_of(final(self).recorded()).to_multiset(),
                final(self).capacity(),
            ),
            final(self).kept().count(limit) > 0,
            at_least(final(self).kept(), limit),
            old(self).is_full() ==> final(self).is_full(),
            forall|t: u32|
                old(self).is_full() && at_least(old(self).kept(), t) ==> at_least(
                    final(self).kept(),
                    t,
                ),
            hit_step(*old(self), *final(self), doc, score, limit),
            forall|t: u32|
                is_least(old(self).kept(), t) && (score > t || old(self).recorded().len()
                    >= old(self).capacity()) ==> t <= limit,
    {
        proof {
            self.top.lemma_top_n();
            assert(scores_of(self.checkpoints@).len() == self.checkpoints@.len());
        }
        let ghost old_cps = self.checkpoints@;
        let ghost old_kept = self.top.kept();
        let ghost was_full = self.top.is_full();
        let c = Checkpoint { doc, limit: score, score };
        self.checkpoints.push(c);
        self.top.push(score);
        proof {
            lemma_scores_push(old_cps, c);
        }
        let limit = self.top.threshold();
        proof {
            assert forall|t: u32|
                is_least(old_kept, t) && (score > t || old_cps.len() >= self.top.capacity())
                    implies t <= limit by {
                if !was_full {
                    if limit != score {
                        assert(old_kept.count(limit) > 0);
                    }
                }
            }
        }
        limit
    }

    /// The checkpoints recorded so far.
    pub fn checkpoints(&self) -> (r: &Vec<Checkpoint>)
        ensures
            r@ == self.recorded(),
    {
        &self.checkpoints
    }

    /// How many scores are kept at most.
    pub fn capacity_of(&self) -> (r: usize)
        requires
            self.inv(),
        ensures
            r == self.capacity(),
    {
        self.top.capacity_of()
    }
}

/// The checkpoints of an unpruned walk: every document is looked at, and the
/// ones that beat the current limit are recorded and raise it.
pub struct ScanCheckpoints {
    top: TopScores,
    checkpoints: Vec<Checkpoint>,
    limit: u32,
    initial: Ghost<u32>,
}

impl ScanCheckpoints {
    /// The checkpoints recorded so far.
    pub closed spec fn recorded(&self) -> Seq<Checkpoint> {
        self.checkpoints@
    }

    /// The best scores kept.
    pub closed spec fn kept(&self) -> Multiset<u32> {
        self.top.kept()
    }

    /// How many scores are kept at most.
    pub closed spec fn capacity(&self) -> nat {
        self.top.capacity()
    }

    /// The limit a document must beat to be recorded.
    pub closed spec fn current_limit(&self) -> u32 {
        self.limit
    }

    /// The limit the walk started from.
    pub closed spec fn initial_limit(&self) -> u32 {
        self.initial@
    }

    /// Internal consistency.
    pub closed spec fn inv(&self) -> bool {
        &&& self.top.inv()
        &&& self.top.seen() =~= scores_of(self.checkpoints@).to_multiset()
        &&& self.checkpoints@.len() == 0 ==> self.limit == self.initial@
        &&& self.checkpoints@.len() > 0 ==> self.top.kept().count(self.limit) > 0 && at_least(
            self.top.kept(),
            self.limit,
        )
        &&& self.initial@ <= self.limit
        &&& self.checkpoints@.len() > 0 ==> self.checkpoints@[0].limit == self.initial@
        &&& forall|i: int|
            0 <= i < self.checkpoints@.len() ==> (#[trigger] self.checkpoints@[i]).limit
                < self.checkpoints@[i].score
        &&& forall|i: int, j: int|
            0 <= i <= j < self.checkpoints@.len() ==> (#[trigger] self.checkpoints@[i]).limit
                <= (#[trigger] self.checkpoints@[j]).limit
        &&& forall|i: int|
            0 <= i < self.checkpoints@.len() ==> (#[trigger] self.checkpoints@[i]).limit
                <= self.limit
    }

    /// A walk that keeps the `n` best scores, starting from `initial_limit`.
    pub fn new(n: usize, initial_limit: u32) -> (r: ScanCheckpoints)
        ensures
            r.inv(),
            r.capacity() == n,
            r.recorded() == Seq::<Checkpoint>::empty(),
            r.current_limit() == initial_limit,
            r.initial_limit() == initial_limit,
    {
        let r = ScanCheckpoints {
            top: TopScores::new(n),
            checkpoints: Vec::new(),
            limit: initial_limit,
            initial: Ghost(initial_limit),
        };
        assert(scores_of(r.checkpoints@) =~= Seq::<u32>::empty());
        r
    }

    /// Looks at a document: one whose score beats the limit is recorded with
    /// that limit, its score joins the best ones, and the limit becomes the
    /// least of the best scores.
    pub fn on_doc(&mut self, doc: u32, score: u32)
        requires
            old(self).inv(),
            score > old(self).current_limit() ==> old(self).capacity() >= 1,
        ensures
            final(self).inv(),
            final(self).capacity() == old(self).capacity(),
            final(self).initial_limit() == old(self).initial_limit(),
            score > old(self).current_limit() ==> {
                &&& final(self).recorded() == old(self).recorded().push(
                    Checkpoint { doc, limit: old(self).current_limit(), score },
                )
                &&& final(self).kept().count(final(self).current_limit()) > 0
                &&& at_least(final(self).kept(), final(self).current_limit())
            },
            score <= old(self).current_limit() ==> final(self).recorded() == old(self).recorded()
                && final(self).current_limit() == old(self).current_limit(),
            old(self).current_limit() <= final(self).current_limit(),
            doc_step(*old(self), *final(self), doc, score),
            is_top_n(
                final(self).kept(),
                scores_of(final(self).recorded()).to_multiset(),
                final(self).capacity(),
            ),
    {
        proof {
            self.top.lemma_top_n();
        }
        if score > self.limit {
            let ghost old_cps = self.checkpoints@;
            let ghost old_kept = self.top.kept();
            let ghost was_full = self.top.is_full();
            let c = Checkpoint { doc, limit: self.limit, score };
            self.checkpoints.push(c);
            self.top.push(score);
            proof {
                lemma_scores_push(old_cps, c);
            }
            let next = self.top.threshold();
            proof {
                if old_cps.len() > 0 {
                    if was_full {
                        assert(at_least(self.top.kept(), self.limit));
                    } else {
                        self.top.lemma_top_n();
                        assert forall|v: u32| self.top.kept().count(v) > 0 implies self.limit
                            <= v by {
                            if v != score {
                                assert(old_kept.count(v) > 0);
                            }
                        }
                    }
                } else {
                    assert(old_kept.len() == 0);
                    assert forall|v: u32| self.top.kept().count(v) > 0 implies self.limit
                        <= v by {
                        if v != score {
                            assert(old_kept.count(v) > 0);
                        }
                    }
                }
                assert(self.limit <= next);
            }
            self.limit = next;
        }
        proof {
            self.top.lemma_top_n();
        }
    }

    /// What the walk keeps: each recorded document beat the limit recorded
    /// with it, the recorded limits never went down, the current limit is at
    /// least every recorded one and the starting one, and the kept scores are
    /// the best of the recorded ones.
    pub proof fn lemma_recorded(&self)
        requires
            self.inv(),
        ensures
            forall|i: int|
                0 <= i < self.recorded().len() ==> (#[trigger] self.recorded()[i]).limit
                    < self.recorded()[i].score,
            forall|i: int, j: int|
                0 <= i <= j < self.recorded().len() ==> (#[trigger] self.recorded()[i]).limit
                    <= (#[trigger] self.recorded()[j]).limit,
            forall|i: int|
                0 <= i < self.recorded().len() ==> (#[trigger] self.recorded()[i]).limit
                    <= self.current_limit(),
            self.initial_limit() <= self.current_limit(),
            self.recorded().len() > 0 ==> self.recorded()[0].limit == self.initial_limit(),
            is_top_n(self.kept(), scores_of(self.recorded()).to_multiset(), self.capacity()),
            self.recorded().len() == 0 ==> self.current_limit() == self.initial_limit(),
    {
        self.top.lemma_top_n();
    }

    /// How many scores are kept at most.
    pub fn capacity_of(&self) -> (r: usize)
        requires
            self.inv(),
        ensures
            r == self.capacity(),
    {
        self.top.capacity_of()
    }

    /// The limit a document must beat to be recorded.
    pub fn limit(&self) -> (r: u32)
        ensures
            r == self.current_limit(),
    {
        self.limit
    }

    /// The checkpoints recorded so far.
    pub fn checkpoints(&self) -> (r: &Vec<Checkpoint>)
        ensures
            r@ == self.recorded(),
    {
        &self.checkpoints
    }
}

} // verus!
