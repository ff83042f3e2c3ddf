//! Progress accounting for streaming transfers.
//!
//! Upload and download both move a payload as a sequence of chunks and share
//! this contract: after each chunk, `transferred` advances by the chunk's
//! length, clamped so a misreported size can never push progress past the
//! declared total. The chunk I/O itself is the surrounding program's; the
//! engine here owns the arithmetic, so the reported figures are proved
//! monotone and exact.

use vstd::prelude::*;

verus! {

/// The running progress of one transfer: how much the payload declares in
/// all, and how much has moved so far.
pub struct TransferProgress {
    pub total_size: u64,
    pub transferred: u64,
}

/// The sum of a sequence of chunk lengths.
pub open spec fn seq_sum(s: Seq<u64>) -> int
    decreases s.len(),
{
    if s.len() == 0 {
        0
    } else {
        s[0] + seq_sum(s.skip(1))
    }
}

pub proof fn lemma_seq_sum_nonneg(s: Seq<u64>)
    ensures
        seq_sum(s) >= 0,
    decreases s.len(),
{
    if s.len() > 0 {
        lemma_seq_sum_nonneg(s.skip(1));
    }
}

pub proof fn lemma_seq_sum_push(s: Seq<u64>, x: u64)
    ensures
        seq_sum(s.push(x)) == seq_sum(s) + x,
    decreases s.len(),
{
    assert(s.push(x).len() == s.len() + 1);
    assert(seq_sum(s.push(x)) == s.push(x)[0] + seq_sum(s.push(x).skip(1)));
    if s.len() == 0 {
        assert(s.push(x)[0] == x);
        assert(s.push(x).skip(1) =~= Seq::<u64>::empty());
        assert(seq_sum(Seq::<u64>::empty()) == 0);
    } else {
        assert(s.push(x)[0] == s[0]);
        assert(s.push(x).skip(1) =~= s.skip(1).push(x));
        lemma_seq_sum_push(s.skip(1), x);
        assert(seq_sum(s) == s[0] + seq_sum(s.skip(1)));
    }
}

impl TransferProgress {
    /// Progress never passes the declared total.
    pub open spec fn wf(self) -> bool {
        self.transferred <= self.total_size
    }

    /// What recording one chunk yields: advance by the chunk's length,
    /// clamped at the declared total.
    pub open spec fn spec_record(self, len: u64) -> TransferProgress {
        if self.transferred + len >= self.total_size {
            TransferProgress { transferred: self.total_size, ..self }
        } else {
            TransferProgress { transferred: (self.transferred + len) as u64, ..self }
        }
    }

    /// What recording a whole sequence of chunks, in order, yields.
    pub open spec fn spec_record_all(self, chunks: Seq<u64>) -> TransferProgress
        decreases chunks.len(),
    {
        if chunks.len() == 0 {
            self
        } else {
            self.spec_record(chunks[0]).spec_record_all(chunks.skip(1))
        }
    }

    /// Fresh progress for a payload of the given declared size. A zero-byte
    /// payload is complete from the start, with nothing moved.
    pub fn new(total_size: u64) -> (r: TransferProgress)
        ensures
            r.total_size == total_size,
            r.transferred == 0,
            r.wf(),
    {
        TransferProgress { total_size, transferred: 0 }
    }

    /// Record that one chunk of `len` bytes moved; the new cumulative figure
    /// comes back for the caller's progress observer.
    pub fn record_chunk(&mut self, len: u64) -> (r: u64)
        requires
            old(self).wf(),
        ensures
            *final(self) == old(self).spec_record(len),
            final(self).wf(),
            final(self).total_size == old(self).total_size,
            old(self).transferred <= final(self).transferred,
            r == final(self).transferred,
    {
        if len >= self.total_size - self.transferred {
            self.transferred = self.total_size;
        } else {
            self.transferred = self.transferred + len;
        }
        self.transferred
    }

    /// Whether the transfer has moved everything the payload declared.
    pub fn is_complete(&self) -> (r: bool)
        ensures
            r == (self.transferred == self.total_size),
    {
        self.transferred == self.total_size
    }
}

/// Recording chunks never shrinks `transferred`, never changes the declared
/// total, and never pushes progress past it — for any sequence of chunk
/// lengths whatever.
pub proof fn lemma_progress_monotone(p: TransferProgress, chunks: Seq<u64>)
    requires
        p.wf(),
    ensures
        p.spec_record_all(chunks).transferred >= p.transferred,
        p.spec_record_all(chunks).total_size == p.total_size,
        p.spec_record_all(chunks).wf(),
    decreases chunks.len(),
{
    if chunks.len() > 0 {
        lemma_progress_monotone(p.spec_record(chunks[0]), chunks.skip(1));
    }
}

/// Recording a sequence of chunks is recording any prefix of it and then the
/// rest: the cumulative figures pass through every intermediate state, so the
/// monotone bound above holds between any two points of a transfer.
pub proof fn lemma_progress_split(p: TransferProgress, chunks: Seq<u64>, i: int)
    requires
        0 <= i <= chunks.len(),
    ensures
        p.spec_record_all(chunks) == p.spec_record_all(chunks.take(i)).spec_record_all(
            chunks.skip(i),
        ),
    decreases i,
{
    if i == 0 {
        assert(chunks.take(0) =~= Seq::<u64>::empty());
        assert(chunks.skip(0) =~= chunks);
    } else {
        assert(chunks.take(i)[0] == chunks[0]);
        assert(chunks.take(i).skip(1) =~= chunks.skip(1).take(i - 1));
        assert(chunks.skip(1).skip(i - 1) =~= chunks.skip(i));
        assert(p.spec_record_all(chunks.take(i)) == p.spec_record(chunks[0]).spec_record_all(
            chunks.take(i).skip(1),
        ));
        lemma_progress_split(p.spec_record(chunks[0]), chunks.skip(1), i - 1);
    }
}

/// While the chunks fit under the declared total, no clamping happens:
/// `transferred` ends exactly at its old figure plus the sum of the chunks.
pub proof fn lemma_progress_exact(p: TransferProgress, chunks: Seq<u64>)
    requires
        p.wf(),
        p.transferred + seq_sum(chunks) <= p.total_size,
    ensures
        p.spec_record_all(chunks).transferred == p.transferred + seq_sum(chunks),
    decreases chunks.len(),
{
    if chunks.len() > 0 {
        lemma_seq_sum_nonneg(chunks.skip(1));
        lemma_progress_exact(p.spec_record(chunks[0]), chunks.skip(1));
    }
}

/// For any sequence of chunk sizes summing to the declared total, the
/// transfer completes with `transferred` equal to `total_size` exactly.
pub proof fn lemma_progress_completes(p: TransferProgress, chunks: Seq<u64>)
    requires
        p.wf(),
        p.transferred + seq_sum(chunks) == p.total_size,
    ensures
        p.spec_record_all(chunks).transferred == p.total_size,
{
    lemma_progress_exact(p, chunks);
}

/// Split a payload of `total` bytes into chunks of `chunk_size`, the last
/// one shorter when the sizes do not divide evenly. The clauses pin the plan
/// down: the lengths sum to the total, every chunk is nonempty and at most
/// `chunk_size`, and only the last may fall short of it. A zero-byte payload
/// yields no chunks at all.
pub fn plan_chunks(total: u64, chunk_size: u64) -> (r: Vec<u64>)
    requires
        chunk_size > 0,
    ensures
        seq_sum(r@) == total,
        forall|i: int| 0 <= i < r@.len() ==> 0 < #[trigger] r@[i] <= chunk_size,
        forall|i: int| 0 <= i < r@.len() - 1 ==> #[trigger] r@[i] == chunk_size,
        total == 0 ==> r@.len() == 0,
{
    let mut remaining: u64 = total;
    let mut plan: Vec<u64> = Vec::new();
    proof {
        assert(seq_sum(plan@) == 0);
    }
    while remaining > 0
        invariant
            chunk_size > 0,
            remaining <= total,
            seq_sum(plan@) == total - remaining,
            forall|i: int| 0 <= i < plan@.len() ==> 0 < #[trigger] plan@[i] <= chunk_size,
            forall|i: int| 0 <= i < plan@.len() - 1 ==> #[trigger] plan@[i] == chunk_size,
            remaining > 0 ==> forall|i: int| 0 <= i < plan@.len() ==> #[trigger] plan@[i]
                == chunk_size,
            total == 0 ==> plan@.len() == 0,
        decreases remaining,
    {
        let step: u64 = if remaining < chunk_size {
            remaining
        } else {
            chunk_size
        };
        proof {
            lemma_seq_sum_push(plan@, step);
        }
        plan.push(step);
        remaining = remaining - step;
    }
    plan
}

} // verus!
