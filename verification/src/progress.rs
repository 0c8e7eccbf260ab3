//! Progress accounting for one stream download: the body arrives in
//! chunks, each chunk is appended to an in-memory accumulator, and the
//! byte counter never decreases and always equals the bytes gathered.

use vstd::prelude::*;

verus! {

/// The accumulator and progress state of one download.  `total` is the
/// announced content length, `0` when the source does not report one;
/// `received` counts the bytes gathered so far.
pub struct DownloadProgress {
    pub bytes: Vec<u8>,
    pub received: u64,
    pub total: u64,
}

impl DownloadProgress {
    /// The byte counter agrees with the accumulated bytes.
    pub open spec fn wf(self) -> bool {
        self.received == self.bytes@.len()
    }

    /// Starts a download whose announced length is `total`.
    pub fn begin(total: u64) -> (r: DownloadProgress)
        ensures
            r.wf(),
            r.bytes@ == Seq::<u8>::empty(),
            r.received == 0,
            r.total == total,
    {
        let r = DownloadProgress { bytes: Vec::new(), received: 0, total };
        proof {
            assert(r.bytes@ =~= Seq::<u8>::empty());
        }
        r
    }

    /// Appends one arrived chunk; the counter grows by exactly the chunk
    /// length and in particular never decreases.
    pub fn push_chunk(&mut self, chunk: Vec<u8>)
        requires
            old(self).wf(),
        ensures
            final(self).wf(),
            final(self).bytes@ == old(self).bytes@ + chunk@,
            final(self).received == old(self).received + chunk@.len(),
            final(self).received >= old(self).received,
            final(self).total == old(self).total,
    {
        let mut c = chunk;
        self.bytes.append(&mut c);
        self.received = self.bytes.len() as u64;
    }
}

/// The byte count after a sequence of chunks has arrived.
pub open spec fn received_after(chunks: Seq<Seq<u8>>) -> nat
    decreases chunks.len(),
{
    if chunks.len() == 0 {
        0
    } else {
        received_after(chunks.drop_last()) + chunks.last().len()
    }
}

/// Progress is monotonically non-decreasing over the chunk sequence: an
/// earlier prefix never counts more bytes than a later one.
pub proof fn lemma_progress_monotone(chunks: Seq<Seq<u8>>, i: int, j: int)
    requires
        0 <= i <= j <= chunks.len(),
    ensures
        received_after(chunks.take(i)) <= received_after(chunks.take(j)),
    decreases j - i,
{
    if i < j {
        lemma_progress_monotone(chunks, i, j - 1);
        assert(chunks.take(j).drop_last() =~= chunks.take(j - 1));
        assert(received_after(chunks.take(j)) == received_after(chunks.take(j - 1))
            + chunks.take(j).last().len());
    }
}

/// Once every chunk has arrived the count equals the total length of the
/// delivered body.
pub proof fn lemma_progress_complete(chunks: Seq<Seq<u8>>)
    ensures
        received_after(chunks) == chunks.flatten().len(),
    decreases chunks.len(),
{
    chunks.lemma_flatten_and_flatten_alt_are_equivalent();
    if chunks.len() == 0 {
        assert(chunks.flatten_alt() =~= Seq::<u8>::empty());
    } else {
        lemma_progress_complete(chunks.drop_last());
        chunks.drop_last().lemma_flatten_and_flatten_alt_are_equivalent();
        assert(chunks.flatten_alt() == chunks.drop_last().flatten_alt() + chunks.last());
    }
}

} // verus!
