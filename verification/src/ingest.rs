//! Ingest batching: documents are appended to the index writer in batches of
//! `BATCH`, with a progress report at every million documents.

use vstd::prelude::*;

verus! {

/// Documents per appended batch.
pub const BATCH: usize = 50_000;

/// A progress report is due whenever the appended total is a multiple of this.
pub const PROGRESS_EVERY: u64 = 1_000_000;

/// The texts of a vector of strings.
pub open spec fn texts(v: Seq<String>) -> Seq<Seq<char>> {
    v.map_values(|s: String| s@)
}

/// What a document brought about.
pub struct Step {
    /// A full batch to append, oldest document first.
    pub batch: Option<Vec<String>>,
    /// The appended total, when a progress report is due.
    pub progress: Option<u64>,
}

/// Documents waiting to be appended, and how many have been appended.
pub struct Ingest {
    buf: Vec<String>,
    total: u64,
    appended: Ghost<Seq<Seq<char>>>,
}

impl Ingest {
    /// Every document handed to the batcher, in order.
    pub closed spec fn accepted(&self) -> Seq<Seq<char>> {
        self.appended@ + texts(self.buf@)
    }

    /// The documents handed out in batches so far, in order.
    pub closed spec fn appended(&self) -> Seq<Seq<char>> {
        self.appended@
    }

    /// The documents waiting for the next batch.
    pub closed spec fn pending(&self) -> Seq<Seq<char>> {
        texts(self.buf@)
    }

    /// How many documents have been handed out.
    pub closed spec fn total_spec(&self) -> u64 {
        self.total
    }

    /// Internal consistency.
    pub closed spec fn inv(&self) -> bool {
        &&& self.buf@.len() < BATCH
        &&& self.total == self.appended@.len()
    }

    /// An empty batcher.
    pub fn new() -> (r: Ingest)
        ensures
            r.inv(),
            r.accepted() == Seq::<Seq<char>>::empty(),
            r.appended() == Seq::<Seq<char>>::empty(),
            r.total_spec() == 0,
    {
        let r = Ingest { buf: Vec::new(), total: 0, appended: Ghost(Seq::empty()) };
        assert(r.appended@ + texts(r.buf@) =~= Seq::<Seq<char>>::empty());
        r
    }

    /// How many documents have been handed out in batches.
    pub fn total(&self) -> (r: u64)
        ensures
            r == self.total_spec(),
    {
        self.total
    }

    /// Whether another document can be taken without the total overflowing.
    pub fn can_push(&self) -> (r: bool)
        requires
            self.inv(),
        ensures
            r == (self.pending().len() + 1 == BATCH ==> self.total_spec() + BATCH <= u64::MAX),
    {
        self.buf.len() + 1 < BATCH || self.total <= u64::MAX - BATCH as u64
    }

    /// Whether the waiting documents can be handed out without the total
    /// overflowing.
    pub fn can_finish(&self) -> (r: bool)
        requires
            self.inv(),
        ensures
            r == (self.total_spec() + self.pending().len() <= u64::MAX),
    {
        self.total <= u64::MAX - self.buf.len() as u64
    }

    /// Takes a document. When it completes a batch, the batch is handed out,
    /// the total grows by `BATCH`, and a progress report is due when the
    /// total is a multiple of `PROGRESS_EVERY`.
    pub fn push(&mut self, text: String) -> (r: Step)
        requires
            old(self).inv(),
            old(self).pending().len() + 1 == BATCH ==> old(self).total_spec() + BATCH <= u64::MAX,
        ensures
            final(self).inv(),
            final(self).accepted() == old(self).accepted().push(text@),
            old(self).pending().len() + 1 == BATCH ==> {
                &&& r.batch matches Some(b) && texts(b@) == old(self).pending().push(text@)
                &&& final(self).appended() == old(self).accepted().push(text@)
                &&& final(self).pending() == Seq::<Seq<char>>::empty()
                &&& final(self).total_spec() == old(self).total_spec() + BATCH
                &&& r.progress == if final(self).total_spec() % PROGRESS_EVERY == 0 {
                    Some(final(self).total_spec())
                } else {
                    None
                }
            },
            old(self).pending().len() + 1 < BATCH ==> {
                &&& r.batch is None
                &&& r.progress is None
                &&& final(self).appended() == old(self).appended()
                &&& final(self).pending() == old(self).pending().push(text@)
                &&& final(self).total_spec() == old(self).total_spec()
            },
    {
        let ghost t = text@;
        self.buf.push(text);
        assert(texts(self.buf@) =~= texts(old(self).buf@).push(t));
        if self.buf.len() == BATCH {
            let mut batch: Vec<String> = Vec::new();
            std::mem::swap(&mut batch, &mut self.buf);
            self.total = self.total + BATCH as u64;
            self.appended = Ghost(self.appended@ + texts(batch@));
            assert(texts(self.buf@) =~= Seq::<Seq<char>>::empty());
            assert(self.appended@ + texts(self.buf@) =~= self.appended@);
            assert((old(self).appended@ + texts(old(self).buf@)).push(t) =~= old(self).appended@
                + texts(old(self).buf@).push(t));
            let progress = if self.total % PROGRESS_EVERY == 0 {
                Some(self.total)
            } else {
                None
            };
            Step { batch: Some(batch), progress }
        } else {
            assert(self.appended@ + texts(self.buf@) =~= (old(self).appended@ + texts(
                old(self).buf@,
            )).push(t));
            Step { batch: None, progress: None }
        }
    }

    /// Hands out the documents still waiting, if any, as a last batch; then
    /// every accepted document has been handed out, in order.
    pub fn finish(&mut self) -> (r: Option<Vec<String>>)
        requires
            old(self).inv(),
            old(self).total_spec() + old(self).pending().len() <= u64::MAX,
        ensures
            final(self).inv(),
            final(self).accepted() == old(self).accepted(),
            final(self).appended() == old(self).accepted(),
            final(self).pending() == Seq::<Seq<char>>::empty(),
            final(self).total_spec() == old(self).accepted().len(),
            old(self).pending().len() == 0 <==> r is None,
            r matches Some(b) ==> texts(b@) == old(self).pending(),
    {
        if self.buf.len() == 0 {
            assert(old(self).appended@ + texts(old(self).buf@) =~= old(self).appended@);
            return None;
        }
        let mut batch: Vec<String> = Vec::new();
            std::mem::swap(&mut batch, &mut self.buf);
        self.total = self.total + batch.len() as u64;
        self.appended = Ghost(self.appended@ + texts(batch@));
        assert(texts(self.buf@) =~= Seq::<Seq<char>>::empty());
        assert(self.appended@ + texts(self.buf@) =~= self.appended@);
        Some(batch)
    }
}

} // verus!
