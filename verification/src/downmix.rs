//! Reduction of interleaved multi-channel batches to one channel.
//!
//! A batch from the device holds whole frames, each frame one sample per
//! channel. Downmixing keeps the frames and replaces each by one sample. How
//! the samples of a frame are blended is the caller's: the library lays out
//! the frames, hands each to the blend and collects the results in order.

use vstd::prelude::*;
use vstd::arithmetic::div_mod::{
    lemma_fundamental_div_mod, lemma_fundamental_div_mod_converse,
};
use vstd::slice::slice_subrange;
use crate::sample::Sample;

verus! {

/// Why a batch cannot be downmixed.
#[derive(Clone, Copy, Debug, PartialEq, Eq, Structural)]
pub enum DownmixError {
    /// The channel count is zero.
    NoChannels,
    /// The batch length is not a multiple of the channel count.
    RaggedBatch,
}

/// The number of frames in a batch of `len` samples over `channels`
/// channels, or why there is none.
pub open spec fn layout(len: nat, channels: nat) -> Result<nat, DownmixError> {
    if channels == 0 {
        Err(DownmixError::NoChannels)
    } else if len % channels != 0 {
        Err(DownmixError::RaggedBatch)
    } else {
        Ok(len / channels)
    }
}

/// The samples of frame `index`, one per channel.
pub open spec fn frame_of(batch: Seq<Sample>, channels: nat, index: int) -> Seq<Sample> {
    batch.subrange(index * channels, (index + 1) * channels)
}

/// Whether `blended` is what `blend` may return for a frame that holds
/// `samples`.
pub open spec fn is_blend_of<F: Fn(&[Sample]) -> Sample>(
    blend: F,
    samples: Seq<Sample>,
    blended: Sample,
) -> bool {
    exists|frame: &[Sample]| #[trigger] frame@ == samples && call_ensures(blend, (frame,), blended)
}

/// Whether `mono` is a downmix of `raw` over `channels` channels by `blend`:
/// one sample for each frame, each what `blend` may return for its frame.
pub open spec fn is_downmix_of<F: Fn(&[Sample]) -> Sample>(
    blend: F,
    raw: Seq<Sample>,
    channels: nat,
    mono: Seq<Sample>,
) -> bool {
    &&& layout(raw.len(), channels) == Ok::<nat, DownmixError>(mono.len())
    &&& forall|index: int|
        0 <= index < mono.len() ==> is_blend_of(
            blend,
            frame_of(raw, channels, index),
            #[trigger] mono[index],
        )
}

/// Downmixing keeps the frame count. Whatever the blend, a downmix of a
/// batch of `frames` frames over `channels` channels, at least one, has
/// exactly `frames` samples.
pub proof fn lemma_downmix_keeps_frame_count<F: Fn(&[Sample]) -> Sample>(
    blend: F,
    raw: Seq<Sample>,
    frames: nat,
    channels: nat,
    mono: Seq<Sample>,
)
    requires
        channels >= 1,
        raw.len() == frames * channels,
        is_downmix_of(blend, raw, channels, mono),
    ensures
        mono.len() == frames,
{
    lemma_whole_batch_layout(frames, channels);
}

/// A batch of `frames` frames over at least one channel is laid out as
/// exactly `frames` frames, and so is never refused.
pub proof fn lemma_whole_batch_layout(frames: nat, channels: nat)
    requires
        channels >= 1,
    ensures
        layout(frames * channels, channels) == Ok::<nat, DownmixError>(frames),
{
    lemma_fundamental_div_mod_converse(
        (frames * channels) as int,
        channels as int,
        frames as int,
        0,
    );
}

/// A batch that is laid out as `frames` frames has `frames` samples per
/// channel.
pub proof fn lemma_layout_covers_batch(len: nat, channels: nat)
    requires
        layout(len, channels) is Ok,
    ensures
        layout(len, channels)->Ok_0 * channels == len,
{
    lemma_fundamental_div_mod(len as int, channels as int);
    assert((len / channels) * channels == channels * (len / channels)) by (nonlinear_arith);
}

/// The number of frames in a batch of `len` samples over `channels` channels.
pub fn frame_count(len: usize, channels: usize) -> (counted: Result<usize, DownmixError>)
    ensures
        match layout(len as nat, channels as nat) {
            Ok(frames) => counted == Ok::<usize, DownmixError>(frames as usize),
            Err(reason) => counted == Err::<usize, DownmixError>(reason),
        },
{
    if channels == 0 {
        Err(DownmixError::NoChannels)
    } else if len % channels != 0 {
        Err(DownmixError::RaggedBatch)
    } else {
        Ok(len / channels)
    }
}

/// Reduces an interleaved batch to one channel, one sample per frame.
///
/// `blend` is called once for each frame, in order, with the frame's
/// samples; the result holds what it returned, in the same order. A batch
/// without channels or with a broken last frame is refused and `blend` is
/// not called.
pub fn downmix<F: Fn(&[Sample]) -> Sample>(batch: &[Sample], channels: usize, blend: F) -> (mixed:
    Result<Vec<Sample>, DownmixError>)
    requires
        forall|frame: &[Sample]| frame@.len() == channels ==> call_requires(blend, (frame,)),
    ensures
        match layout(batch@.len(), channels as nat) {
            Ok(frames) => mixed matches Ok(mono) && is_downmix_of(
                blend,
                batch@,
                channels as nat,
                mono@,
            ),
            Err(reason) => mixed == Err::<Vec<Sample>, DownmixError>(reason),
        },
{
    let frames: usize = match frame_count(batch.len(), channels) {
        Ok(frames) => frames,
        Err(reason) => {
            return Err(reason);
        },
    };
    proof {
        lemma_layout_covers_batch(batch@.len(), channels as nat);
    }
    let mut mono: Vec<Sample> = Vec::new();
    assert(batch@.len() <= usize::MAX) by {
        assert(batch.len() == batch@.len());
    }
    let mut index: usize = 0;
    let mut start: usize = 0;
    while index < frames
        invariant
            forall|frame: &[Sample]| frame@.len() == channels ==> call_requires(blend, (frame,)),
            channels > 0,
            frames * channels == batch@.len(),
            index <= frames,
            start == index * channels,
            mono@.len() == index,
            batch@.len() <= usize::MAX,
            forall|done: int|
                0 <= done < index ==> is_blend_of(
                    blend,
                    frame_of(batch@, channels as nat, done),
                    #[trigger] mono@[done],
                ),
        decreases frames - index,
    {
        assert((index + 1) * channels == index * channels + channels && (index + 1) * channels
            <= frames * channels) by (nonlinear_arith)
            requires
                index < frames,
        ;
        let frame: &[Sample] = slice_subrange(batch, start, start + channels);
        let blended: Sample = blend(frame);
        mono.push(blended);
        proof {
            assert(frame@ == frame_of(batch@, channels as nat, index as int));
            assert(is_blend_of(
                blend,
                frame_of(batch@, channels as nat, index as int),
                mono@[index as int],
            ));
        }
        index += 1;
        start += channels;
    }
    Ok(mono)
}

} // verus!
