//! A work-list cut into batches.
//!
//! A run goes through its work-list batch by batch. A batch is what a pool
//! of `width` workers takes on at once; the run moves on only when the whole
//! batch is done.

use vstd::prelude::*;

verus! {

/// A work-list and the place that a run has reached in it, as contracts
/// see them.
pub struct BatchesModel {
    /// The work-list of the run.
    pub work: Seq<Seq<char>>,
    /// How many entries of the work-list the finished batches held.
    pub position: nat,
    /// The largest number of identifiers in one batch.
    pub width: nat,
}

/// The position behind the current batch.
pub open spec fn batch_end(m: BatchesModel) -> nat {
    if m.position + m.width <= m.work.len() {
        m.position + m.width
    } else {
        m.work.len()
    }
}

/// The current batch: the next `width` entries of the work-list, or all that
/// are left where fewer are.
pub open spec fn batch_of(m: BatchesModel) -> Seq<Seq<char>> {
    m.work.subrange(m.position as int, batch_end(m) as int)
}

/// The run once the current batch is done.
pub open spec fn advanced(m: BatchesModel) -> BatchesModel {
    BatchesModel { position: batch_end(m), ..m }
}

/// A run before its first batch.
pub open spec fn batches_of(work: Seq<Seq<char>>, width: nat) -> BatchesModel {
    BatchesModel { work, position: 0, width }
}

/// A work-list and the place that a run has reached in it.
#[derive(Debug)]
pub struct Batches {
    work: Vec<String>,
    position: usize,
    width: usize,
}

impl View for Batches {
    type V = BatchesModel;

    closed spec fn view(&self) -> BatchesModel {
        BatchesModel {
            work: self.work.deep_view(),
            position: self.position as nat,
            width: self.width as nat,
        }
    }
}

impl Batches {
    #[verifier::type_invariant]
    spec fn in_range(self) -> bool {
        self.position <= self.work.len() && self.width >= 1
    }

    /// A run over `work` in batches of `width`. A batch must hold something,
    /// so there is no run of width 0.
    pub fn new(work: Vec<String>, width: usize) -> (run: Option<Batches>)
        ensures
            run is None <==> width == 0,
            run matches Some(b) ==> b@ == batches_of(work.deep_view(), width as nat),
    {
        if width == 0 {
            None
        } else {
            Some(Batches { work, position: 0, width })
        }
    }

    /// Whether every entry of the work-list has been in a finished batch.
    pub fn is_finished(&self) -> (finished: bool)
        ensures
            finished == (self@.position == self@.work.len()),
            self@.position <= self@.work.len(),
            self@.width >= 1,
    {
        proof {
            use_type_invariant(self);
        }
        self.position == self.work.len()
    }

    /// How many entries of the work-list the finished batches held.
    pub fn position(&self) -> (position: usize)
        ensures
            position == self@.position,
            position <= self@.work.len(),
    {
        proof {
            use_type_invariant(self);
        }
        self.position
    }

    /// The number of identifiers in the current batch.
    pub fn batch_len(&self) -> (n: usize)
        ensures
            n == batch_of(self@).len(),
            n <= self@.width,
            n == 0 <==> self@.position == self@.work.len(),
    {
        proof {
            use_type_invariant(self);
        }
        if self.width <= self.work.len() - self.position {
            self.width
        } else {
            self.work.len() - self.position
        }
    }

    /// The identifiers of the current batch. The batch is empty when the run
    /// is finished and only then.
    pub fn next_batch(&self) -> (batch: Vec<String>)
        ensures
            batch.deep_view() == batch_of(self@),
            batch.len() <= self@.width,
            batch.len() == 0 <==> self@.position == self@.work.len(),
    {
        proof {
            use_type_invariant(self);
        }
        let n = self.batch_len();
        let start = self.position;
        let mut batch: Vec<String> = Vec::new();
        let mut i: usize = 0;
        assert(batch.deep_view() == self.work.deep_view().subrange(start as int, start as int));
        while i < n
            invariant
                i <= n,
                start + n <= self.work.len(),
                batch.len() == i,
                batch.deep_view() == self.work.deep_view().subrange(
                    start as int,
                    start + i as int,
                ),
            decreases n - i,
        {
            let ghost before = batch.deep_view();
            batch.push(self.work[start + i].clone());
            assert(batch.deep_view() == before.push(self.work[start + i as int]@));
            i += 1;
        }
        batch
    }

    /// Moves on to the batch behind the current one.
    pub fn advance(&mut self)
        ensures
            final(self)@ == advanced(old(self)@),
    {
        proof {
            use_type_invariant(&*self);
        }
        let n = self.batch_len();
        self.position = self.position + n;
    }
}

/// The batches of a run follow one another through the work-list: what the
/// finished batches held, and the current batch behind it, is what the
/// finished batches hold once the current one is done. No entry is left out
/// and none comes twice. A batch holds no more than `width` entries, and at
/// least one as long as the work-list has any left.
pub proof fn lemma_batches_cover(m: BatchesModel)
    requires
        m.position <= m.work.len(),
    ensures
        m.work.take(advanced(m).position as int) == m.work.take(m.position as int) + batch_of(m),
        advanced(m).position <= m.work.len(),
        batch_of(m).len() <= m.width,
        m.width >= 1 && m.position < m.work.len() ==> batch_of(m).len() >= 1,
{
    assert(m.work.take(batch_end(m) as int) =~= m.work.take(m.position as int) + batch_of(m));
}

/// The run after `n` finished batches.
pub open spec fn after_batches(m: BatchesModel, n: nat) -> BatchesModel
    decreases n,
{
    if n == 0 {
        m
    } else {
        advanced(after_batches(m, (n - 1) as nat))
    }
}

/// A run of positive width over a work-list of `len` entries is finished
/// after `len` batches at the latest: every entry gets its turn.
pub proof fn lemma_run_finishes(work: Seq<Seq<char>>, width: nat, n: nat)
    requires
        width >= 1,
    ensures
        after_batches(batches_of(work, width), n).work == work,
        after_batches(batches_of(work, width), n).width == width,
        after_batches(batches_of(work, width), n).position <= work.len(),
        after_batches(batches_of(work, width), n).position >= if n <= work.len() {
            n
        } else {
            work.len()
        },
    decreases n,
{
    if n > 0 {
        lemma_run_finishes(work, width, (n - 1) as nat);
    }
}

} // verus!
