//! Staging of a variable stream into the fixed chunks a rate converter takes.
//!
//! A device delivers batches of whatever length it likes; a fixed-input
//! converter takes exactly one chunk length, always the same. The staging
//! buffer stands between the two: it accumulates samples, releases whole
//! chunks in stream order and carries the rest over to the next batch.

use vstd::prelude::*;
use vstd::arithmetic::div_mod::{
    lemma_fundamental_div_mod, lemma_fundamental_div_mod_converse, lemma_mod_bound,
};
use crate::ring::Ring;
use crate::sample::Sample;

verus! {

/// The `index`-th whole chunk of `stream`.
pub open spec fn nth_chunk(stream: Seq<Sample>, chunk: nat, index: int) -> Seq<Sample> {
    stream.subrange(index * chunk, (index + 1) * chunk)
}

/// The whole chunks of `stream`, in order.
pub open spec fn complete_chunks(stream: Seq<Sample>, chunk: nat) -> Seq<Seq<Sample>> {
    Seq::new(stream.len() / chunk, |index: int| nth_chunk(stream, chunk, index))
}

/// What is left of `stream` behind its last whole chunk.
pub open spec fn remainder(stream: Seq<Sample>, chunk: nat) -> Seq<Sample> {
    stream.skip(((stream.len() / chunk) * chunk) as int)
}

/// The contents of each released chunk.
pub open spec fn chunk_views(chunks: Seq<Vec<Sample>>) -> Seq<Seq<Sample>> {
    Seq::new(chunks.len(), |index: int| chunks[index]@)
}

/// Why a staging buffer could not be made or filled.
#[derive(Clone, Copy, Debug, PartialEq, Eq, Structural)]
pub enum StagingError {
    /// The chunk length is zero.
    ZeroChunk,
    /// The arena cannot hold one whole chunk.
    CapacityBelowChunk,
    /// The batch does not fit beside what is already pending.
    Overflow,
}

/// Accumulates samples and releases them in chunks of one fixed length.
pub struct StagingBuffer {
    ring: Ring,
    chunk: usize,
}

impl StagingBuffer {
    /// The arena is sound and holds at least one chunk of positive length.
    pub closed spec fn wf(&self) -> bool {
        &&& self.ring.wf()
        &&& 0 < self.chunk <= self.ring.spec_capacity()
    }

    /// The samples staged and not yet released, oldest first.
    pub closed spec fn view(&self) -> Seq<Sample> {
        self.ring@
    }

    /// The fixed chunk length.
    pub closed spec fn spec_chunk_size(&self) -> nat {
        self.chunk as nat
    }

    /// The number of samples the arena can hold.
    pub closed spec fn spec_capacity(&self) -> nat {
        self.ring.spec_capacity()
    }

    /// A well-formed buffer has a positive chunk length within its capacity
    /// and never holds more than its capacity.
    pub proof fn lemma_bounds(&self)
        requires
            self.wf(),
        ensures
            0 < self.spec_chunk_size() <= self.spec_capacity(),
            self@.len() <= self.spec_capacity(),
    {
        self.ring.lemma_len_bounded();
    }

    /// An empty buffer that releases chunks of `chunk_size` samples and can
    /// hold `capacity` samples at once.
    pub fn new(chunk_size: usize, capacity: usize) -> (made: Result<StagingBuffer, StagingError>)
        ensures
            chunk_size == 0 ==> made == Err::<StagingBuffer, StagingError>(StagingError::ZeroChunk),
            chunk_size > 0 && capacity < chunk_size ==> made == Err::<StagingBuffer, StagingError>(
                StagingError::CapacityBelowChunk,
            ),
            0 < chunk_size <= capacity ==> made is Ok,
            made matches Ok(buffer) ==> {
                &&& buffer.wf()
                &&& buffer@ == Seq::<Sample>::empty()
                &&& buffer.spec_chunk_size() == chunk_size
                &&& buffer.spec_capacity() == capacity
            },
    {
        if chunk_size == 0 {
            return Err(StagingError::ZeroChunk);
        }
        if capacity < chunk_size {
            return Err(StagingError::CapacityBelowChunk);
        }
        Ok(StagingBuffer { ring: Ring::new(capacity), chunk: chunk_size })
    }

    /// The fixed chunk length.
    pub fn chunk_size(&self) -> (chunk: usize)
        ensures
            chunk == self.spec_chunk_size(),
    {
        self.chunk
    }

    /// The number of samples the arena can hold.
    pub fn capacity(&self) -> (capacity: usize)
        ensures
            capacity == self.spec_capacity(),
    {
        self.ring.capacity()
    }

    /// The number of samples staged and not yet released.
    pub fn pending(&self) -> (pending: usize)
        requires
            self.wf(),
        ensures
            pending == self@.len(),
    {
        self.ring.len()
    }

    /// Appends `batch` to the pending samples, all of it or none.
    ///
    /// Fails with `Overflow`, leaving the buffer as it was, when the batch
    /// does not fit beside what is pending.
    pub fn stage(&mut self, batch: &[Sample]) -> (staged: Result<(), StagingError>)
        requires
            old(self).wf(),
        ensures
            final(self).wf(),
            final(self).spec_chunk_size() == old(self).spec_chunk_size(),
            final(self).spec_capacity() == old(self).spec_capacity(),
            old(self)@.len() + batch@.len() <= old(self).spec_capacity() ==> staged is Ok
                && final(self)@ == old(self)@ + batch@,
            old(self)@.len() + batch@.len() > old(self).spec_capacity() ==> staged == Err::<
                (),
                StagingError,
            >(StagingError::Overflow) && final(self)@ == old(self)@,
    {
        let room: usize = self.ring.capacity() - self.ring.len();
        if batch.len() > room {
            return Err(StagingError::Overflow);
        }
        let mut at: usize = 0;
        while at < batch.len()
            invariant
                self.ring.wf(),
                self.chunk == old(self).chunk,
                self.ring.spec_capacity() == old(self).ring.spec_capacity(),
                at <= batch@.len(),
                old(self).ring@.len() + batch@.len() <= self.ring.spec_capacity(),
                self.ring@ == old(self).ring@ + batch@.take(at as int),
            decreases batch@.len() - at,
        {
            let queued: bool = self.ring.push(batch[at]);
            assert(queued);
            assert(batch@.take(at as int).push(batch@[at as int]) == batch@.take(at + 1));
            at += 1;
        }
        assert(batch@.take(at as int) == batch@);
        Ok(())
    }

    /// Releases the oldest whole chunk, if a whole chunk is pending.
    pub fn release(&mut self) -> (released: Option<Vec<Sample>>)
        requires
            old(self).wf(),
        ensures
            final(self).wf(),
            final(self).spec_chunk_size() == old(self).spec_chunk_size(),
            final(self).spec_capacity() == old(self).spec_capacity(),
            old(self)@.len() < old(self).spec_chunk_size() ==> released is None && final(self)@
                == old(self)@,
            old(self)@.len() >= old(self).spec_chunk_size() ==> released is Some,
            released matches Some(chunk) ==> {
                &&& chunk@ == old(self)@.take(old(self).spec_chunk_size() as int)
                &&& final(self)@ == old(self)@.skip(old(self).spec_chunk_size() as int)
            },
    {
        if self.ring.len() < self.chunk {
            return None;
        }
        let mut chunk: Vec<Sample> = Vec::new();
        let mut taken: usize = 0;
        while taken < self.chunk
            invariant
                self.ring.wf(),
                self.chunk == old(self).chunk,
                self.ring.spec_capacity() == old(self).ring.spec_capacity(),
                old(self).ring@.len() >= self.chunk,
                taken <= self.chunk,
                chunk@ == old(self).ring@.take(taken as int),
                self.ring@ == old(self).ring@.skip(taken as int),
            decreases self.chunk - taken,
        {
            let oldest: Option<Sample> = self.ring.pop();
            match oldest {
                Some(sample) => {
                    chunk.push(sample);
                },
                None => {
                    assert(false);
                },
            }
            assert(old(self).ring@.skip(taken as int).drop_first() == old(self).ring@.skip(
                taken + 1,
            ));
            assert(chunk@ == old(self).ring@.take(taken + 1));
            taken += 1;
        }
        Some(chunk)
    }

    /// Stages `batch`, whatever its length, and releases every whole chunk
    /// that the stream has completed so far.
    ///
    /// The released chunks are the whole chunks of the pending samples
    /// followed by the batch; what is behind the last of them stays pending,
    /// always less than one chunk.
    pub fn feed(&mut self, batch: &[Sample]) -> (chunks: Vec<Vec<Sample>>)
        requires
            old(self).wf(),
        ensures
            final(self).wf(),
            final(self).spec_chunk_size() == old(self).spec_chunk_size(),
            final(self).spec_capacity() == old(self).spec_capacity(),
            chunk_views(chunks@) == complete_chunks(
                old(self)@ + batch@,
                old(self).spec_chunk_size(),
            ),
            final(self)@ == remainder(old(self)@ + batch@, old(self).spec_chunk_size()),
    {
        let ghost stream: Seq<Sample> = old(self)@ + batch@;
        let ghost size: nat = self.chunk as nat;
        let mut chunks: Vec<Vec<Sample>> = Vec::new();
        let mut at: usize = 0;
        proof {
            assert(0 * size == 0) by (nonlinear_arith);
            assert(self.ring@ == stream.subrange(0, old(self).ring@.len() as int));
        }
        loop
            invariant
                self.ring.wf(),
                self.chunk == old(self).chunk,
                size == self.chunk,
                0 < self.chunk <= self.ring.spec_capacity(),
                self.ring.spec_capacity() == old(self).ring.spec_capacity(),
                stream == old(self).ring@ + batch@,
                at <= batch@.len(),
                chunks@.len() * size + self.ring@.len() == old(self).ring@.len() + at,
                self.ring@ == stream.subrange(
                    (chunks@.len() * size) as int,
                    old(self).ring@.len() + at,
                ),
                forall|index: int|
                    0 <= index < chunks@.len() ==> (#[trigger] chunks@[index])@ == nth_chunk(
                        stream,
                        size,
                        index,
                    ),
            ensures
                at == batch@.len(),
                self.ring@.len() < size,
            decreases 2 * (batch@.len() - at) + self.ring@.len(),
        {
            if self.ring.len() >= self.chunk {
                let ghost before: Seq<Sample> = self.ring@;
                let ghost done: int = chunks@.len() as int;
                let released: Option<Vec<Sample>> = self.release();
                match released {
                    Some(chunk) => {
                        proof {
                            assert((done + 1) * size == done * size + size) by (nonlinear_arith);
                            assert(chunk@ == nth_chunk(stream, size, done));
                            assert(self.ring@ == stream.subrange(
                                (done + 1) * size,
                                old(self).ring@.len() + at,
                            ));
                        }
                        chunks.push(chunk);
                    },
                    None => {
                        assert(false);
                    },
                }
            } else if at < batch.len() {
                let queued: bool = self.ring.push(batch[at]);
                assert(queued);
                assert(stream[old(self).ring@.len() + at] == batch@[at as int]);
                assert(self.ring@ == stream.subrange(
                    (chunks@.len() * size) as int,
                    old(self).ring@.len() + at + 1,
                ));
                at += 1;
            } else {
                break;
            }
        }
        proof {
            let total: int = stream.len() as int;
            let done: int = chunks@.len() as int;
            lemma_fundamental_div_mod_converse(total, size as int, done, self.ring@.len() as int);
            assert(done == total / (size as int));
            assert(chunk_views(chunks@) =~= complete_chunks(stream, size));
            assert(self.ring@ =~= remainder(stream, size));
        }
        chunks
    }
}

/// All batches of a session laid end to end.
pub open spec fn concat_all(batches: Seq<Seq<Sample>>) -> Seq<Sample>
    decreases batches.len(),
{
    if batches.len() == 0 {
        Seq::empty()
    } else {
        concat_all(batches.drop_last()) + batches.last()
    }
}

/// What is pending once `batches` have been fed, one after the other, to a
/// buffer that started empty.
pub open spec fn pending_after(batches: Seq<Seq<Sample>>, chunk: nat) -> Seq<Sample>
    decreases batches.len(),
{
    if batches.len() == 0 {
        Seq::empty()
    } else {
        remainder(pending_after(batches.drop_last(), chunk) + batches.last(), chunk)
    }
}

/// Every chunk released while `batches` were fed, one after the other, to a
/// buffer that started empty, in the order of release.
pub open spec fn released_after(batches: Seq<Seq<Sample>>, chunk: nat) -> Seq<Seq<Sample>>
    decreases batches.len(),
{
    if batches.len() == 0 {
        Seq::empty()
    } else {
        released_after(batches.drop_last(), chunk) + complete_chunks(
            pending_after(batches.drop_last(), chunk) + batches.last(),
            chunk,
        )
    }
}

/// Chunks laid end to end.
pub open spec fn flatten(chunks: Seq<Seq<Sample>>) -> Seq<Sample>
    decreases chunks.len(),
{
    if chunks.len() == 0 {
        Seq::empty()
    } else {
        flatten(chunks.drop_last()) + chunks.last()
    }
}

/// The whole chunks of a stream, followed by its remainder, are the stream.
pub proof fn lemma_chunks_cover_stream(stream: Seq<Sample>, chunk: nat)
    requires
        chunk > 0,
    ensures
        flatten(complete_chunks(stream, chunk)) + remainder(stream, chunk) == stream,
        remainder(stream, chunk).len() == stream.len() % chunk,
        forall|index: int|
            0 <= index < complete_chunks(stream, chunk).len() ==> (#[trigger] complete_chunks(
                stream,
                chunk,
            )[index]).len() == chunk,
{
    let count: int = (stream.len() / chunk) as int;
    lemma_fundamental_div_mod(stream.len() as int, chunk as int);
    lemma_mod_bound(stream.len() as int, chunk as int);
    assert(count * chunk == chunk * count) by (nonlinear_arith);
    assert forall|index: int| 0 <= index < count implies (#[trigger] complete_chunks(
        stream,
        chunk,
    )[index]).len() == chunk by {
        assert(0 <= index * chunk && (index + 1) * chunk <= count * chunk && (index + 1) * chunk
            == index * chunk + chunk) by (nonlinear_arith)
            requires
                0 <= index < count,
                chunk > 0,
        ;
    }
    lemma_flatten_prefix(stream, chunk, count);
    assert(stream.take(count * chunk) + stream.skip(count * chunk) == stream);
}

/// The first `count` whole chunks of a stream, laid end to end, are its
/// first `count * chunk` samples.
proof fn lemma_flatten_prefix(stream: Seq<Sample>, chunk: nat, count: int)
    requires
        chunk > 0,
        0 <= count,
        count * chunk <= stream.len(),
    ensures
        flatten(Seq::new(count as nat, |index: int| nth_chunk(stream, chunk, index)))
            == stream.take(count * chunk),
    decreases count,
{
    let chunks = Seq::new(count as nat, |index: int| nth_chunk(stream, chunk, index));
    if count == 0 {
        assert(0 * chunk == 0) by (nonlinear_arith);
        assert(stream.take(0) == Seq::<Sample>::empty());
    } else {
        assert((count - 1) * chunk + chunk == count * chunk && 0 <= (count - 1) * chunk)
            by (nonlinear_arith)
            requires
                count >= 1,
                chunk > 0,
        ;
        lemma_flatten_prefix(stream, chunk, count - 1);
        assert(chunks.drop_last() == Seq::new(
            (count - 1) as nat,
            |index: int| nth_chunk(stream, chunk, index),
        ));
        assert(chunks.last() == stream.subrange((count - 1) * chunk, count * chunk));
        assert(stream.take((count - 1) * chunk) + stream.subrange(
            (count - 1) * chunk,
            count * chunk,
        ) == stream.take(count * chunk));
    }
}

/// Feeding a batch to a buffer that holds the remainder of a stream releases
/// the chunks that the batch completes and leaves what the longer stream
/// leaves: staging depends on the stream, not on where the batches were cut.
pub proof fn lemma_feed_extends_stream(stream: Seq<Sample>, batch: Seq<Sample>, chunk: nat)
    requires
        chunk > 0,
    ensures
        complete_chunks(stream + batch, chunk) == complete_chunks(stream, chunk) + complete_chunks(
            remainder(stream, chunk) + batch,
            chunk,
        ),
        remainder(stream + batch, chunk) == remainder(remainder(stream, chunk) + batch, chunk),
{
    let size: int = chunk as int;
    let whole: int = (stream.len() / chunk) as int;
    let rest: Seq<Sample> = remainder(stream, chunk);
    let tail: Seq<Sample> = rest + batch;
    let more: int = (tail.len() / chunk) as int;
    lemma_fundamental_div_mod(stream.len() as int, size);
    lemma_mod_bound(stream.len() as int, size);
    lemma_fundamental_div_mod(tail.len() as int, size);
    lemma_mod_bound(tail.len() as int, size);
    assert(whole * size == size * whole && more * size == size * more && (whole + more) * size
        == whole * size + more * size) by (nonlinear_arith);
    assert(rest.len() == stream.len() - whole * size);
    lemma_fundamental_div_mod_converse(
        (stream + batch).len() as int,
        size,
        whole + more,
        (tail.len() % chunk) as int,
    );
    assert((stream + batch).skip(whole * size) == tail);
    let left = complete_chunks(stream + batch, chunk);
    let right = complete_chunks(stream, chunk) + complete_chunks(tail, chunk);
    assert(left.len() == right.len());
    assert forall|index: int| 0 <= index < left.len() implies left[index] == right[index] by {
        if index < whole {
            assert(0 <= index * size && (index + 1) * size <= whole * size && (index + 1) * size
                == index * size + size) by (nonlinear_arith)
                requires
                    0 <= index < whole,
                    size > 0,
            ;
            assert((index + 1) * size <= stream.len());
            assert((stream + batch).subrange(index * size, (index + 1) * size) =~= stream.subrange(
                index * size,
                (index + 1) * size,
            ));
            assert(nth_chunk(stream + batch, chunk, index) == nth_chunk(stream, chunk, index));
        } else {
            let shifted: int = index - whole;
            assert(0 <= shifted * size && (shifted + 1) * size == shifted * size + size && (shifted
                + 1) * size <= more * size && index * size
                == whole * size + shifted * size && (index + 1) * size == whole * size + (shifted
                + 1) * size) by (nonlinear_arith)
                requires
                    0 <= shifted < more,
                    index == whole + shifted,
                    size > 0,
            ;
            assert((shifted + 1) * size <= tail.len());
            assert((stream + batch).subrange(index * size, (index + 1) * size) =~= tail.subrange(
                shifted * size,
                (shifted + 1) * size,
            ));
            assert(nth_chunk(stream + batch, chunk, index) == nth_chunk(tail, chunk, shifted));
        }
    }
    assert(left == right);
    assert(remainder(stream + batch, chunk) == remainder(tail, chunk));
}

/// The fixed-chunk law of a staged session. However a stream is cut into
/// batches, feeding them one by one to an empty buffer releases exactly the
/// whole chunks of the stream, each of the fixed length and in stream order,
/// and keeps pending exactly the residue: as many samples as the total
/// leaves modulo the chunk length, and none when the total is a multiple of
/// it.
pub proof fn lemma_chunking_ignores_batching(batches: Seq<Seq<Sample>>, chunk: nat)
    requires
        chunk > 0,
    ensures
        released_after(batches, chunk) == complete_chunks(concat_all(batches), chunk),
        pending_after(batches, chunk) == remainder(concat_all(batches), chunk),
        pending_after(batches, chunk).len() == concat_all(batches).len() % chunk,
        forall|index: int|
            0 <= index < released_after(batches, chunk).len() ==> (#[trigger] released_after(
                batches,
                chunk,
            )[index]).len() == chunk,
        flatten(released_after(batches, chunk)) + pending_after(batches, chunk) == concat_all(
            batches,
        ),
        concat_all(batches).len() % chunk == 0 ==> flatten(released_after(batches, chunk))
            == concat_all(batches),
    decreases batches.len(),
{
    if batches.len() == 0 {
        assert(complete_chunks(Seq::<Sample>::empty(), chunk) =~= Seq::<Seq<Sample>>::empty()) by {
            assert(0int / (chunk as int) == 0) by (nonlinear_arith)
                requires
                    chunk > 0,
            ;
        }
        assert((0int / (chunk as int)) * chunk == 0) by (nonlinear_arith)
            requires
                chunk > 0,
        ;
        assert(remainder(Seq::<Sample>::empty(), chunk) =~= Seq::<Sample>::empty());
    } else {
        lemma_chunking_ignores_batching(batches.drop_last(), chunk);
        lemma_feed_extends_stream(concat_all(batches.drop_last()), batches.last(), chunk);
    }
    lemma_chunks_cover_stream(concat_all(batches), chunk);
    if concat_all(batches).len() % chunk == 0 {
        assert(pending_after(batches, chunk) =~= Seq::<Sample>::empty());
        assert(flatten(released_after(batches, chunk)) + Seq::<Sample>::empty() == flatten(
            released_after(batches, chunk),
        ));
    }
}

} // verus!
