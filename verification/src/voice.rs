//! Frame-wise voice detection with the WebRTC detector.
//!
//! A run of 16-bit samples is cut into consecutive frames of one length,
//! the last frame taking what is left, and each frame is put to the
//! detector in order.

use vstd::prelude::*;
use vstd::arithmetic::div_mod::{lemma_fundamental_div_mod, lemma_mod_bound};
use vstd::slice::slice_subrange;
use webrtc_vad::Vad;

verus! {

/// The detector of the `webrtc-vad` crate. It keeps its sample rate, its
/// mode and its filter state to itself.
#[verifier::external_type_specification]
#[verifier::external_body]
pub struct ExVad(Vad);

/// Whether a frame of `len` samples lasts 10, 20 or 30 ms at one of the
/// detector's rates: 8, 16, 32 or 48 kHz.
pub open spec fn is_frame_length(len: nat) -> bool {
    ||| len == 80
    ||| len == 160
    ||| len == 240
    ||| len == 320
    ||| len == 480
    ||| len == 640
    ||| len == 960
    ||| len == 1440
}

/// `Vad::is_voice_segment`: the detector's verdict on one frame.
///
/// The method reads the frame's first sample before anything else, so the
/// frame must not be empty. It refuses a frame whose length is not 10, 20 or
/// 30 ms at the rate the detector is set to; the contract claims only what
/// follows for every rate: a verdict is given on no other length than those
/// of `is_frame_length`. Which verdict is given depends on what the detector
/// has heard before, and nothing is claimed of it.
#[verifier::external_body]
fn is_voice_segment(vad: &mut Vad, frame: &[i16]) -> (verdict: Result<bool, ()>)
    requires
        frame@.len() > 0,
    ensures
        verdict is Ok ==> is_frame_length(frame@.len()),
{
    vad.is_voice_segment(frame)
}

/// Why a run of samples could not be put to the detector.
#[derive(Clone, Copy, Debug, PartialEq, Eq, Structural)]
pub enum VoiceError {
    /// The frame length is zero.
    ZeroFrameSize,
    /// The detector refused the frame with this index.
    FrameRejected { index: usize },
}

/// The number of frames that `len` samples make: whole frames of
/// `frame_size`, and one more for what is left.
pub open spec fn frame_total(len: nat, frame_size: nat) -> nat {
    if len % frame_size == 0 {
        len / frame_size
    } else {
        len / frame_size + 1
    }
}

/// Where frame `index` ends.
pub open spec fn frame_end(len: nat, frame_size: nat, index: nat) -> nat {
    if (index + 1) * frame_size <= len {
        (index + 1) * frame_size
    } else {
        len
    }
}

/// The length of frame `index`.
pub open spec fn frame_len(len: nat, frame_size: nat, index: nat) -> nat {
    (frame_end(len, frame_size, index) - index * frame_size) as nat
}

/// The samples of frame `index`: from where the frame before it ends to
/// where it ends itself.
pub open spec fn frame_samples(samples: Seq<i16>, frame_size: nat, index: nat) -> Seq<i16> {
    samples.subrange((index * frame_size) as int, frame_end(samples.len(), frame_size, index) as int)
}

/// The frames of `samples`, in order.
pub open spec fn frames_of(samples: Seq<i16>, frame_size: nat) -> Seq<Seq<i16>> {
    Seq::new(
        frame_total(samples.len(), frame_size),
        |index: int| frame_samples(samples, frame_size, index as nat),
    )
}

/// Frames laid end to end.
pub open spec fn concat_frames(frames: Seq<Seq<i16>>) -> Seq<i16>
    decreases frames.len(),
{
    if frames.len() == 0 {
        Seq::empty()
    } else {
        concat_frames(frames.drop_last()) + frames.last()
    }
}

/// Where the frames stand, in numbers: frame `index` of a run exists exactly
/// below the frame total; it starts inside the run and is not empty; it has
/// the full length unless it is the last one and takes what is left.
pub proof fn lemma_frame_bounds(len: nat, frame_size: nat, index: nat)
    requires
        frame_size > 0,
    ensures
        index < frame_total(len, frame_size) <==> index * frame_size < len,
        index < frame_total(len, frame_size) ==> {
            &&& index * frame_size < frame_end(len, frame_size, index) <= len
            &&& 0 < frame_len(len, frame_size, index) <= frame_size
            &&& (index + 1 < frame_total(len, frame_size) ==> frame_len(len, frame_size, index)
                == frame_size)
            &&& (index + 1 == frame_total(len, frame_size) && len % frame_size != 0 ==> frame_len(
                len,
                frame_size,
                index,
            ) == len % frame_size)
        },
{
    let whole: int = (len / frame_size) as int;
    let left: int = (len % frame_size) as int;
    let size: int = frame_size as int;
    let at: int = index as int;
    lemma_fundamental_div_mod(len as int, size);
    lemma_mod_bound(len as int, size);
    assert(size * whole == whole * size) by (nonlinear_arith);
    assert((at + 1) * size == at * size + size) by (nonlinear_arith);
    if at < whole {
        assert((at + 1) * size <= whole * size) by (nonlinear_arith)
            requires
                at + 1 <= whole,
                size > 0,
        ;
    } else {
        assert(at * size >= whole * size) by (nonlinear_arith)
            requires
                at >= whole,
                size > 0,
        ;
        if at > whole {
            assert(at * size >= whole * size + size) by (nonlinear_arith)
                requires
                    at >= whole + 1,
                    size > 0,
            ;
        }
    }
}

/// The frames cover the run: laid end to end, in order, they are the
/// samples, each sample once.
pub proof fn lemma_frames_cover_samples(samples: Seq<i16>, frame_size: nat)
    requires
        frame_size > 0,
    ensures
        concat_frames(frames_of(samples, frame_size)) == samples,
{
    let total: nat = frame_total(samples.len(), frame_size);
    lemma_first_frames(samples, frame_size, total);
    assert(frames_of(samples, frame_size).take(total as int) =~= frames_of(samples, frame_size));
    if total > 0 {
        lemma_frame_bounds(samples.len(), frame_size, (total - 1) as nat);
        lemma_frame_bounds(samples.len(), frame_size, total);
        assert(total * frame_size >= samples.len());
        assert(frame_end(samples.len(), frame_size, (total - 1) as nat) == samples.len());
    } else {
        lemma_frame_bounds(samples.len(), frame_size, 0);
        assert(0 * frame_size == 0) by (nonlinear_arith);
    }
    assert(samples.take(samples.len() as int) =~= samples);
}

/// The first `count` frames, laid end to end, are the samples up to where
/// the last of them ends.
proof fn lemma_first_frames(samples: Seq<i16>, frame_size: nat, count: nat)
    requires
        frame_size > 0,
        count <= frame_total(samples.len(), frame_size),
    ensures
        concat_frames(frames_of(samples, frame_size).take(count as int)) == samples.take(
            if count == 0 {
                0
            } else {
                frame_end(samples.len(), frame_size, (count - 1) as nat) as int
            },
        ),
    decreases count,
{
    let frames = frames_of(samples, frame_size);
    if count == 0 {
        assert(frames.take(0) =~= Seq::<Seq<i16>>::empty());
        assert(samples.take(0) =~= Seq::<i16>::empty());
    } else {
        let last: nat = (count - 1) as nat;
        lemma_first_frames(samples, frame_size, last);
        lemma_frame_bounds(samples.len(), frame_size, last);
        assert(frames.take(count as int).drop_last() =~= frames.take(last as int));
        assert(frames.take(count as int).last() == frame_samples(samples, frame_size, last));
        if last == 0 {
            assert(0 * frame_size == 0) by (nonlinear_arith);
        } else {
            lemma_frame_bounds(samples.len(), frame_size, (last - 1) as nat);
            assert(frame_end(samples.len(), frame_size, (last - 1) as nat) == last * frame_size);
        }
        assert(samples.take((last * frame_size) as int) + frame_samples(samples, frame_size, last)
            =~= samples.take(frame_end(samples.len(), frame_size, last) as int));
    }
}

/// Cuts frame `index` out of `samples`.
///
/// There is such a frame exactly when the frame length is not zero and
/// `index` lies below the frame total. The frame starts where the one
/// before it ends and is never empty.
pub fn frame_at<'a>(samples: &'a [i16], frame_size: usize, index: usize) -> (cut: Option<
    &'a [i16],
>)
    ensures
        cut is Some <==> frame_size > 0 && index < frame_total(samples@.len(), frame_size as nat),
        cut matches Some(frame) ==> {
            &&& frame@ == frame_samples(samples@, frame_size as nat, index as nat)
            &&& frame@.len() == frame_len(samples@.len(), frame_size as nat, index as nat)
            &&& frame@.len() > 0
        },
{
    if frame_size == 0 {
        return None;
    }
    let len: usize = samples.len();
    let whole: usize = len / frame_size;
    let left: usize = len % frame_size;
    proof {
        lemma_frame_bounds(len as nat, frame_size as nat, index as nat);
        lemma_fundamental_div_mod(len as int, frame_size as int);
        lemma_mod_bound(len as int, frame_size as int);
        assert(frame_size * whole == whole * frame_size) by (nonlinear_arith);
        assert((index + 1) * frame_size == index * frame_size + frame_size) by (nonlinear_arith);
        if index < whole {
            assert((index + 1) * frame_size <= whole * frame_size) by (nonlinear_arith)
                requires
                    index + 1 <= whole,
                    frame_size > 0,
            ;
        }
    }
    if index < whole {
        let start: usize = index * frame_size;
        Some(slice_subrange(samples, start, start + frame_size))
    } else if index == whole && left > 0 {
        Some(slice_subrange(samples, len - left, len))
    } else {
        None
    }
}

/// Files the detector's answer on the next frame: a verdict is appended, a
/// refusal is reported with the frame's index and leaves the verdicts as
/// they were.
pub fn file_verdict(verdicts: &mut Vec<bool>, answer: Result<bool, ()>) -> (filed: Result<
    (),
    VoiceError,
>)
    ensures
        answer matches Ok(voice) ==> filed is Ok && final(verdicts)@ == old(verdicts)@.push(voice),
        answer is Err ==> filed == Err::<(), VoiceError>(
            VoiceError::FrameRejected { index: old(verdicts)@.len() as usize },
        ) && final(verdicts)@ == old(verdicts)@,
{
    match answer {
        Ok(voice) => {
            verdicts.push(voice);
            Ok(())
        },
        Err(_) => Err(VoiceError::FrameRejected { index: verdicts.len() }),
    }
}

/// Puts `samples` to the detector frame by frame and returns its verdicts,
/// one for each frame, in order: `true` for voice.
///
/// The frames are those of `frame_at`, taken by rising index from 0 until
/// there is none, so the detector hears every sample once and in order.
/// Stops at the first frame that the detector refuses and reports its
/// index. Since the detector gives a verdict only on the lengths of
/// `is_frame_length`, verdicts on all frames mean that every frame had such
/// a length, and a frame of another length is never passed over.
pub fn detect_voice(vad: &mut Vad, samples: &[i16], frame_size: usize) -> (detected: Result<
    Vec<bool>,
    VoiceError,
>)
    ensures
        frame_size == 0 ==> detected == Err::<Vec<bool>, VoiceError>(VoiceError::ZeroFrameSize),
        frame_size > 0 ==> match detected {
            Ok(verdicts) => {
                &&& verdicts@.len() == frame_total(samples@.len(), frame_size as nat)
                &&& forall|index: nat|
                    index < verdicts@.len() ==> is_frame_length(
                        #[trigger] frame_len(samples@.len(), frame_size as nat, index),
                    )
            },
            Err(VoiceError::FrameRejected { index }) => {
                &&& index < frame_total(samples@.len(), frame_size as nat)
                &&& forall|earlier: nat|
                    earlier < index ==> is_frame_length(
                        #[trigger] frame_len(samples@.len(), frame_size as nat, earlier),
                    )
            },
            Err(VoiceError::ZeroFrameSize) => false,
        },
{
    if frame_size == 0 {
        return Err(VoiceError::ZeroFrameSize);
    }
    let mut verdicts: Vec<bool> = Vec::new();
    loop
        invariant
            frame_size > 0,
            verdicts@.len() <= frame_total(samples@.len(), frame_size as nat),
            forall|index: nat|
                index < verdicts@.len() ==> is_frame_length(
                    #[trigger] frame_len(samples@.len(), frame_size as nat, index),
                ),
        ensures
            verdicts@.len() == frame_total(samples@.len(), frame_size as nat),
        decreases frame_total(samples@.len(), frame_size as nat) - verdicts@.len(),
    {
        let frame: &[i16] = match frame_at(samples, frame_size, verdicts.len()) {
            Some(frame) => frame,
            None => {
                break;
            },
        };
        let answer: Result<bool, ()> = is_voice_segment(vad, frame);
        match file_verdict(&mut verdicts, answer) {
            Ok(()) => {},
            Err(reason) => {
                return Err(reason);
            },
        }
    }
    Ok(verdicts)
}

} // verus!
