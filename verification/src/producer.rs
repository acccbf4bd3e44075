//! The producer's side of the pipeline: what one device callback does.
//!
//! A callback brings an interleaved batch of any length. The producer
//! downmixes it, stages the result and hands back the whole chunks that are
//! ready for the rate converter. What the converter makes of them goes into
//! the channel with `SampleChannel::push_batch`.

use vstd::prelude::*;
use vstd::arithmetic::div_mod::{
    lemma_div_is_ordered, lemma_fundamental_div_mod, lemma_fundamental_div_mod_converse,
    lemma_mod_bound,
};
use crate::downmix::{downmix, is_downmix_of, layout, DownmixError};
use crate::sample::Sample;
use crate::staging::{chunk_views, complete_chunks, remainder, StagingBuffer};

verus! {

/// Why a producer could not be made.
#[derive(Clone, Copy, Debug, PartialEq, Eq, Structural)]
pub enum ProducerError {
    /// The device has no channels.
    NoChannels,
    /// The converter's chunk length is zero.
    ZeroChunk,
}

/// The state that the device callback keeps between batches.
pub struct Producer {
    channels: usize,
    staging: StagingBuffer,
}

impl Producer {
    /// The staging buffer is sound and there is a channel to read.
    pub closed spec fn wf(&self) -> bool {
        &&& self.channels > 0
        &&& self.staging.wf()
    }

    /// The channel count of the device.
    pub closed spec fn spec_channels(&self) -> nat {
        self.channels as nat
    }

    /// The chunk length of the converter.
    pub closed spec fn spec_chunk_size(&self) -> nat {
        self.staging.spec_chunk_size()
    }

    /// The mono samples carried over to the next batch.
    pub closed spec fn view(&self) -> Seq<Sample> {
        self.staging@
    }

    /// A producer for a device of `channels` channels and a converter that
    /// takes `chunk_size` frames at a time, with nothing carried over.
    pub fn new(channels: usize, chunk_size: usize) -> (made: Result<Producer, ProducerError>)
        ensures
            channels == 0 ==> made == Err::<Producer, ProducerError>(ProducerError::NoChannels),
            channels > 0 && chunk_size == 0 ==> made == Err::<Producer, ProducerError>(
                ProducerError::ZeroChunk,
            ),
            channels > 0 && chunk_size > 0 ==> made is Ok,
            made matches Ok(producer) ==> {
                &&& producer.wf()
                &&& producer.spec_channels() == channels
                &&& producer.spec_chunk_size() == chunk_size
                &&& producer@ == Seq::<Sample>::empty()
            },
    {
        if channels == 0 {
            return Err(ProducerError::NoChannels);
        }
        match StagingBuffer::new(chunk_size, chunk_size) {
            Ok(staging) => Ok(Producer { channels, staging }),
            Err(_) => Err(ProducerError::ZeroChunk),
        }
    }

    /// The channel count of the device.
    pub fn channels(&self) -> (channels: usize)
        ensures
            channels == self.spec_channels(),
    {
        self.channels
    }

    /// The chunk length of the converter.
    pub fn chunk_size(&self) -> (chunk: usize)
        ensures
            chunk == self.spec_chunk_size(),
    {
        self.staging.chunk_size()
    }

    /// The number of mono samples carried over to the next batch.
    pub fn carried(&self) -> (carried: usize)
        requires
            self.wf(),
        ensures
            carried == self@.len(),
    {
        self.staging.pending()
    }

    /// One device callback, up to the converter.
    ///
    /// The batch is downmixed by `blend`, the mono samples are put behind
    /// what was carried over, and every whole chunk of that stream is
    /// returned, in order; the rest is carried over. A batch with a broken
    /// last frame is refused and nothing changes.
    pub fn ingest<F: Fn(&[Sample]) -> Sample>(&mut self, raw: &[Sample], blend: F) -> (ready: Result<
        Vec<Vec<Sample>>,
        DownmixError,
    >)
        requires
            old(self).wf(),
            forall|frame: &[Sample]|
                frame@.len() == old(self).spec_channels() ==> call_requires(blend, (frame,)),
        ensures
            final(self).wf(),
            final(self).spec_channels() == old(self).spec_channels(),
            final(self).spec_chunk_size() == old(self).spec_chunk_size(),
            layout(raw@.len(), old(self).spec_channels()) is Err ==> {
                &&& ready == Err::<Vec<Vec<Sample>>, DownmixError>(DownmixError::RaggedBatch)
                &&& final(self)@ == old(self)@
            },
            layout(raw@.len(), old(self).spec_channels()) is Ok ==> {
                &&& ready matches Ok(chunks)
                &&& exists|mono: Seq<Sample>|
                    {
                        &&& #[trigger] is_downmix_of(blend, raw@, old(self).spec_channels(), mono)
                        &&& chunk_views(chunks@) == complete_chunks(
                            old(self)@ + mono,
                            old(self).spec_chunk_size(),
                        )
                        &&& final(self)@ == remainder(
                            old(self)@ + mono,
                            old(self).spec_chunk_size(),
                        )
                    }
            },
    {
        match downmix(raw, self.channels, blend) {
            Ok(mono) => {
                let chunks: Vec<Vec<Sample>> = self.staging.feed(mono.as_slice());
                Ok(chunks)
            },
            Err(reason) => Err(reason),
        }
    }
}

/// The most whole chunks that one batch can complete: as many as fit into
/// the batch and the longest carry-over together.
pub open spec fn most_chunks_per_batch(chunk: nat, most_frames: nat) -> nat {
    ((chunk - 1 + most_frames) / chunk as int) as nat
}

/// A batch of at most `most_frames` frames, staged behind a carry-over of
/// less than one chunk, completes at most `most_chunks_per_batch` chunks.
pub proof fn lemma_chunks_per_batch_bounded(
    carried: Seq<Sample>,
    mono: Seq<Sample>,
    chunk: nat,
    most_frames: nat,
)
    requires
        chunk > 0,
        carried.len() < chunk,
        mono.len() <= most_frames,
    ensures
        complete_chunks(carried + mono, chunk).len() <= most_chunks_per_batch(chunk, most_frames),
{
    lemma_div_is_ordered(
        (carried + mono).len() as int,
        chunk - 1 + most_frames,
        chunk as int,
    );
}

/// The channel capacity that lets the samples of one callback in without
/// waiting: room for what the converter makes of the most chunks that one
/// batch can complete. `None` when the chunk length is zero or that number
/// does not fit the machine.
pub fn channel_capacity_for(chunk: usize, most_frames: usize, most_output_per_chunk: usize) -> (capacity:
    Option<usize>)
    ensures
        chunk == 0 ==> capacity is None,
        chunk > 0 ==> match capacity {
            Some(capacity) => capacity == most_chunks_per_batch(chunk as nat, most_frames as nat)
                * most_output_per_chunk,
            None => most_chunks_per_batch(chunk as nat, most_frames as nat) * most_output_per_chunk
                > usize::MAX,
        },
{
    if chunk == 0 {
        return None;
    }
    let span: usize = match (chunk - 1).checked_add(most_frames) {
        Some(span) => span,
        None => {
            return chunks_beyond_span(chunk, most_frames, most_output_per_chunk);
        },
    };
    (span / chunk).checked_mul(most_output_per_chunk)
}

/// The capacity when the carry-over and the batch together exceed the
/// machine's range: the quotient is taken in two parts.
fn chunks_beyond_span(chunk: usize, most_frames: usize, most_output_per_chunk: usize) -> (capacity:
    Option<usize>)
    requires
        chunk > 0,
        chunk - 1 + most_frames > usize::MAX,
    ensures
        match capacity {
            Some(capacity) => capacity == most_chunks_per_batch(chunk as nat, most_frames as nat)
                * most_output_per_chunk,
            None => most_chunks_per_batch(chunk as nat, most_frames as nat) * most_output_per_chunk
                > usize::MAX,
        },
{
    // chunk - 1 + most_frames = most_frames / chunk * chunk + (most_frames % chunk + chunk - 1),
    // and the second part holds one more chunk exactly when the rest of the
    // batch is not empty.
    let whole: usize = most_frames / chunk;
    let rest: usize = most_frames % chunk;
    proof {
        lemma_fundamental_div_mod(most_frames as int, chunk as int);
        lemma_mod_bound(most_frames as int, chunk as int);
        let extra: int = if rest > 0 {
            1
        } else {
            0
        };
        let left: int = if rest > 0 {
            rest - 1
        } else {
            chunk - 1
        };
        assert(chunk - 1 + most_frames == (whole + extra) * chunk + left) by (nonlinear_arith)
            requires
                most_frames == chunk * whole + rest,
                extra == (if rest > 0 {
                    1int
                } else {
                    0int
                }),
                left == (if rest > 0 {
                    rest - 1
                } else {
                    chunk - 1
                }),
        ;
        lemma_fundamental_div_mod_converse(
            chunk - 1 + most_frames,
            chunk as int,
            whole + extra,
            left,
        );
    }
    let chunks: usize = if rest > 0 {
        match whole.checked_add(1) {
            Some(chunks) => chunks,
            None => {
                // `whole` is usize::MAX only when chunk is 1, and then there is no rest.
                assert(false) by {
                    assert(chunk * whole >= whole) by (nonlinear_arith)
                        requires
                            chunk >= 1,
                            whole >= 0,
                    ;
                }
                return None;
            },
        }
    } else {
        whole
    };
    chunks.checked_mul(most_output_per_chunk)
}

} // verus!
