//! Utterance segmentation by silence timeout.
//!
//! While listening, every sample is appended to the utterance. A sample
//! whose magnitude is above the amplitude threshold marks voice activity at
//! the time it arrived. Once the time since the last activity reaches the
//! silence duration, the utterance is complete.
//!
//! Time is a count of microseconds on a clock that the caller reads. A clock
//! reading that lies before the last activity counts as no time elapsed.

use vstd::prelude::*;
use crate::sample::{louder_than, Sample};

verus! {

/// Silence that ends an utterance, by default: two seconds.
pub const DEFAULT_SILENCE_MICROS: u64 = 2_000_000;

/// Bit pattern of the default amplitude threshold, the single nearest 0.05.
pub const DEFAULT_THRESHOLD_BITS: u32 = 0x3D4C_CCCD;

/// Microseconds from `since` to `now`; zero when `now` lies before `since`.
pub open spec fn elapsed_between(since: u64, now: u64) -> nat {
    if now >= since {
        (now - since) as nat
    } else {
        0
    }
}

/// The time of the last voice activity and the two fixed thresholds.
#[derive(Clone, Copy, Debug, PartialEq, Eq, Structural)]
pub struct VoiceActivityState {
    /// When a sample above the amplitude threshold last arrived, or when
    /// listening began.
    pub last_voice_activity: u64,
    /// How long the silence must last to end the utterance.
    pub silence_duration: u64,
    /// The magnitude a sample must exceed to count as voice.
    pub threshold: Sample,
}

impl VoiceActivityState {
    /// Whether `sample` counts as voice.
    pub open spec fn hears(self, sample: Sample) -> bool {
        louder_than(sample.bits, self.threshold.bits)
    }

    /// The state after `sample` arrived at `now`.
    pub open spec fn observed(self, sample: Sample, now: u64) -> VoiceActivityState {
        if self.hears(sample) {
            VoiceActivityState { last_voice_activity: now, ..self }
        } else {
            self
        }
    }

    /// Whether at `now` the silence has lasted long enough.
    pub open spec fn timed_out_at(self, now: u64) -> bool {
        elapsed_between(self.last_voice_activity, now) >= self.silence_duration
    }

    /// A state whose last activity is `now`.
    pub fn starting_at(now: u64, silence_duration: u64, threshold: Sample) -> (state:
        VoiceActivityState)
        ensures
            state == (VoiceActivityState { last_voice_activity: now, silence_duration, threshold }),
    {
        VoiceActivityState { last_voice_activity: now, silence_duration, threshold }
    }

    /// Whether `sample` counts as voice.
    pub fn is_voice(&self, sample: Sample) -> (voice: bool)
        ensures
            voice == self.hears(sample),
    {
        sample.exceeds(self.threshold)
    }

    /// The state after `sample` arrived at `now`.
    pub fn observe(&self, sample: Sample, now: u64) -> (next: VoiceActivityState)
        ensures
            next == self.observed(sample, now),
    {
        if self.is_voice(sample) {
            VoiceActivityState {
                last_voice_activity: now,
                silence_duration: self.silence_duration,
                threshold: self.threshold,
            }
        } else {
            *self
        }
    }

    /// Microseconds of silence so far at `now`.
    pub fn silence_at(&self, now: u64) -> (silence: u64)
        ensures
            silence == elapsed_between(self.last_voice_activity, now),
    {
        if now >= self.last_voice_activity {
            now - self.last_voice_activity
        } else {
            0
        }
    }

    /// Whether at `now` the silence has lasted long enough.
    pub fn is_timed_out(&self, now: u64) -> (timed_out: bool)
        ensures
            timed_out == self.timed_out_at(now),
    {
        self.silence_at(now) >= self.silence_duration
    }
}

/// Where the segmenter stands in the cycle of one utterance.
#[derive(Clone, Copy, Debug, PartialEq, Eq, Structural)]
pub enum SegmenterState {
    /// No recording is under way.
    Idle,
    /// Samples are being accumulated.
    Listening,
    /// The silence has lasted long enough; the utterance is complete.
    SilenceTimeout,
}

/// Why the segmenter refused an operation.
#[derive(Clone, Copy, Debug, PartialEq, Eq, Structural)]
pub enum SegmenterError {
    /// `start` outside `Idle`.
    NotIdle,
    /// `accept` outside `Listening`.
    NotListening,
    /// `finish` outside `SilenceTimeout`.
    NotTimedOut,
}

/// The state that listening is in after an event at `now`.
pub open spec fn listening_state_at(activity: VoiceActivityState, now: u64) -> SegmenterState {
    if activity.timed_out_at(now) {
        SegmenterState::SilenceTimeout
    } else {
        SegmenterState::Listening
    }
}

/// Accumulates one utterance and decides when it is complete.
pub struct Segmenter {
    state: SegmenterState,
    activity: VoiceActivityState,
    utterance: Vec<Sample>,
}

impl Segmenter {
    /// Outside a recording the utterance is empty.
    pub closed spec fn wf(&self) -> bool {
        self.state is Idle ==> self.utterance@.len() == 0
    }

    /// The utterance so far, oldest sample first.
    pub closed spec fn view(&self) -> Seq<Sample> {
        self.utterance@
    }

    /// Where the segmenter stands.
    pub closed spec fn spec_state(&self) -> SegmenterState {
        self.state
    }

    /// The last activity and the thresholds.
    pub closed spec fn spec_activity(&self) -> VoiceActivityState {
        self.activity
    }

    /// An idle segmenter has an empty utterance.
    pub proof fn lemma_idle_is_empty(&self)
        requires
            self.wf(),
            self.spec_state() is Idle,
        ensures
            self@ == Seq::<Sample>::empty(),
    {
        assert(self.utterance@ =~= Seq::<Sample>::empty());
    }

    /// An idle segmenter with the given thresholds.
    pub fn new(silence_duration: u64, threshold: Sample) -> (segmenter: Segmenter)
        ensures
            segmenter.wf(),
            segmenter.spec_state() is Idle,
            segmenter@ == Seq::<Sample>::empty(),
            segmenter.spec_activity().silence_duration == silence_duration,
            segmenter.spec_activity().threshold == threshold,
    {
        Segmenter {
            state: SegmenterState::Idle,
            activity: VoiceActivityState::starting_at(0, silence_duration, threshold),
            utterance: Vec::new(),
        }
    }

    /// An idle segmenter with the default thresholds.
    pub fn with_defaults() -> (segmenter: Segmenter)
        ensures
            segmenter.wf(),
            segmenter.spec_state() is Idle,
            segmenter@ == Seq::<Sample>::empty(),
            segmenter.spec_activity().silence_duration == DEFAULT_SILENCE_MICROS,
            segmenter.spec_activity().threshold.bits == DEFAULT_THRESHOLD_BITS,
    {
        Segmenter::new(DEFAULT_SILENCE_MICROS, Sample::from_bits(DEFAULT_THRESHOLD_BITS))
    }

    /// Where the segmenter stands.
    pub fn state(&self) -> (state: SegmenterState)
        ensures
            state == self.spec_state(),
    {
        self.state
    }

    /// The last activity and the thresholds.
    pub fn activity(&self) -> (activity: VoiceActivityState)
        ensures
            activity == self.spec_activity(),
    {
        self.activity
    }

    /// The utterance so far.
    pub fn utterance(&self) -> (utterance: &Vec<Sample>)
        ensures
            utterance@ == self@,
    {
        &self.utterance
    }

    /// Record-start: `Idle` becomes `Listening`, with the last activity at
    /// `now` and an empty utterance. Refused in any other state.
    pub fn start(&mut self, now: u64) -> (started: Result<(), SegmenterError>)
        requires
            old(self).wf(),
        ensures
            final(self).wf(),
            old(self).spec_state() is Idle ==> {
                &&& started is Ok
                &&& final(self).spec_state() is Listening
                &&& final(self)@ == Seq::<Sample>::empty()
                &&& final(self).spec_activity() == (VoiceActivityState {
                    last_voice_activity: now,
                    ..old(self).spec_activity()
                })
            },
            !(old(self).spec_state() is Idle) ==> {
                &&& started == Err::<(), SegmenterError>(SegmenterError::NotIdle)
                &&& *final(self) == *old(self)
            },
    {
        match self.state {
            SegmenterState::Idle => {
                self.activity = VoiceActivityState::starting_at(
                    now,
                    self.activity.silence_duration,
                    self.activity.threshold,
                );
                self.state = SegmenterState::Listening;
                assert(self.utterance@ =~= Seq::<Sample>::empty());
                Ok(())
            },
            _ => Err(SegmenterError::NotIdle),
        }
    }

    /// One sample popped from the channel at `now`.
    ///
    /// While listening: a sample above the threshold moves the last activity
    /// to `now`; the sample is appended in any case; then the silence is
    /// measured, and the new state returned. Refused, with nothing changed,
    /// in any other state.
    pub fn accept(&mut self, sample: Sample, now: u64) -> (accepted: Result<
        SegmenterState,
        SegmenterError,
    >)
        requires
            old(self).wf(),
        ensures
            final(self).wf(),
            old(self).spec_state() is Listening ==> {
                &&& final(self).spec_activity() == old(self).spec_activity().observed(sample, now)
                &&& final(self)@ == old(self)@.push(sample)
                &&& final(self).spec_state() == listening_state_at(final(self).spec_activity(), now)
                &&& accepted == Ok::<SegmenterState, SegmenterError>(final(self).spec_state())
            },
            !(old(self).spec_state() is Listening) ==> {
                &&& accepted == Err::<SegmenterState, SegmenterError>(SegmenterError::NotListening)
                &&& *final(self) == *old(self)
            },
    {
        match self.state {
            SegmenterState::Listening => {
                self.activity = self.activity.observe(sample, now);
                self.utterance.push(sample);
                if self.activity.is_timed_out(now) {
                    self.state = SegmenterState::SilenceTimeout;
                }
                Ok(self.state)
            },
            _ => Err(SegmenterError::NotListening),
        }
    }

    /// A look at the clock with no sample at hand.
    ///
    /// While listening, the silence is measured at `now` and the new state
    /// returned. In any other state nothing changes.
    pub fn poll(&mut self, now: u64) -> (state: SegmenterState)
        requires
            old(self).wf(),
        ensures
            final(self).wf(),
            final(self)@ == old(self)@,
            final(self).spec_activity() == old(self).spec_activity(),
            state == final(self).spec_state(),
            old(self).spec_state() is Listening ==> final(self).spec_state() == listening_state_at(
                old(self).spec_activity(),
                now,
            ),
            !(old(self).spec_state() is Listening) ==> *final(self) == *old(self),
    {
        match self.state {
            SegmenterState::Listening => {
                if self.activity.is_timed_out(now) {
                    self.state = SegmenterState::SilenceTimeout;
                }
            },
            _ => {},
        }
        self.state
    }

    /// The utterance has been consumed: `SilenceTimeout` becomes `Idle` and
    /// the utterance is emptied, its storage kept. Refused in any other
    /// state.
    pub fn finish(&mut self) -> (finished: Result<(), SegmenterError>)
        requires
            old(self).wf(),
        ensures
            final(self).wf(),
            final(self).spec_activity() == old(self).spec_activity(),
            old(self).spec_state() is SilenceTimeout ==> {
                &&& finished is Ok
                &&& final(self).spec_state() is Idle
                &&& final(self)@ == Seq::<Sample>::empty()
            },
            !(old(self).spec_state() is SilenceTimeout) ==> {
                &&& finished == Err::<(), SegmenterError>(SegmenterError::NotTimedOut)
                &&& *final(self) == *old(self)
            },
    {
        match self.state {
            SegmenterState::SilenceTimeout => {
                self.utterance.clear();
                self.state = SegmenterState::Idle;
                Ok(())
            },
            _ => Err(SegmenterError::NotTimedOut),
        }
    }

    /// One turn of the consumer's loop: a popped sample goes to `accept`, a
    /// tick to `poll`.
    pub fn step(&mut self, event: SegmenterEvent) -> (stepped: Result<
        SegmenterState,
        SegmenterError,
    >)
        requires
            old(self).wf(),
        ensures
            final(self).wf(),
            old(self).spec_state() is Listening ==> {
                &&& final(self).spec_activity() == activity_after_event(
                    old(self).spec_activity(),
                    event,
                )
                &&& final(self)@ == utterance_after_event(old(self)@, event)
                &&& final(self).spec_state() == listening_state_at(
                    final(self).spec_activity(),
                    event.time(),
                )
                &&& stepped == Ok::<SegmenterState, SegmenterError>(final(self).spec_state())
            },
            !(old(self).spec_state() is Listening) ==> {
                &&& *final(self) == *old(self)
                &&& stepped == match event {
                    SegmenterEvent::Sample { .. } => Err::<SegmenterState, SegmenterError>(
                        SegmenterError::NotListening,
                    ),
                    SegmenterEvent::Tick { .. } => Ok::<SegmenterState, SegmenterError>(
                        old(self).spec_state(),
                    ),
                }
            },
    {
        match event {
            SegmenterEvent::Sample { sample, now } => self.accept(sample, now),
            SegmenterEvent::Tick { now } => Ok(self.poll(now)),
        }
    }
}

/// What the consumer's loop sees in one turn.
#[derive(Clone, Copy, Debug, PartialEq, Eq, Structural)]
pub enum SegmenterEvent {
    /// A sample was popped from the channel at `now`.
    Sample { sample: Sample, now: u64 },
    /// Nothing was waiting at `now`.
    Tick { now: u64 },
}

impl SegmenterEvent {
    /// When the event happened.
    pub open spec fn time(self) -> u64 {
        match self {
            SegmenterEvent::Sample { now, .. } => now,
            SegmenterEvent::Tick { now } => now,
        }
    }
}

/// The activity after one event while listening.
pub open spec fn activity_after_event(
    activity: VoiceActivityState,
    event: SegmenterEvent,
) -> VoiceActivityState {
    match event {
        SegmenterEvent::Sample { sample, now } => activity.observed(sample, now),
        SegmenterEvent::Tick { .. } => activity,
    }
}

/// The utterance after one event while listening.
pub open spec fn utterance_after_event(utterance: Seq<Sample>, event: SegmenterEvent) -> Seq<
    Sample,
> {
    match event {
        SegmenterEvent::Sample { sample, .. } => utterance.push(sample),
        SegmenterEvent::Tick { .. } => utterance,
    }
}

/// The activity after a run of events while listening.
pub open spec fn activity_after(
    activity: VoiceActivityState,
    events: Seq<SegmenterEvent>,
) -> VoiceActivityState
    decreases events.len(),
{
    if events.len() == 0 {
        activity
    } else {
        activity_after_event(activity_after(activity, events.drop_last()), events.last())
    }
}

/// Whether a segmenter that has listened through `events[..index]` goes to
/// `SilenceTimeout` on `events[index]`.
pub open spec fn declares_timeout(
    activity: VoiceActivityState,
    events: Seq<SegmenterEvent>,
    index: int,
) -> bool {
    activity_after(activity, events.take(index + 1)).timed_out_at(events[index].time())
}

/// Whether the event carries no voice: a tick, or a sample that is not above
/// the threshold.
pub open spec fn is_quiet(activity: VoiceActivityState, event: SegmenterEvent) -> bool {
    match event {
        SegmenterEvent::Sample { sample, .. } => !activity.hears(sample),
        SegmenterEvent::Tick { .. } => true,
    }
}

/// Whether `events[index]` comes no earlier than what precedes it and at
/// most `interval` microseconds later. What precedes the first event is the
/// moment `origin`.
pub open spec fn paced_at(
    origin: u64,
    events: Seq<SegmenterEvent>,
    index: int,
    interval: nat,
) -> bool {
    let previous: u64 = if index == 0 {
        origin
    } else {
        events[index - 1].time()
    };
    previous <= events[index].time() <= previous + interval
}

/// Whether the clock never runs backwards over `events` and no two
/// consecutive events lie more than `interval` microseconds apart.
pub open spec fn paced(origin: u64, events: Seq<SegmenterEvent>, interval: nat) -> bool {
    forall|index: int| 0 <= index < events.len() ==> paced_at(origin, events, index, interval)
}

/// Whether every one of `events` is quiet.
pub open spec fn all_quiet(activity: VoiceActivityState, events: Seq<SegmenterEvent>) -> bool {
    forall|index: int| 0 <= index < events.len() ==> is_quiet(activity, #[trigger] events[index])
}

/// Quiet events leave the activity as it was.
pub proof fn lemma_quiet_keeps_activity(activity: VoiceActivityState, events: Seq<SegmenterEvent>)
    requires
        all_quiet(activity, events),
    ensures
        activity_after(activity, events) == activity,
    decreases events.len(),
{
    if events.len() > 0 {
        assert(all_quiet(activity, events.drop_last())) by {
            assert forall|index: int| 0 <= index < events.drop_last().len() implies is_quiet(
                activity,
                #[trigger] events.drop_last()[index],
            ) by {
                assert(events.drop_last()[index] == events[index]);
            }
        }
        lemma_quiet_keeps_activity(activity, events.drop_last());
        assert(is_quiet(activity, events[events.len() - 1]));
    }
}

/// The accuracy of the silence timeout. After the last voice activity, let
/// quiet events follow on a clock that never runs backwards, no two of them
/// more than `interval` apart. Then the event on which the segmenter goes
/// to `SilenceTimeout` comes no earlier than the silence duration after the
/// last activity, and less than one interval later than that.
pub proof fn lemma_silence_timeout_accuracy(
    activity: VoiceActivityState,
    events: Seq<SegmenterEvent>,
    interval: nat,
    index: int,
)
    requires
        activity.silence_duration > 0,
        all_quiet(activity, events),
        paced(activity.last_voice_activity, events, interval),
        0 <= index < events.len(),
        declares_timeout(activity, events, index),
        forall|earlier: int| 0 <= earlier < index ==> !declares_timeout(activity, events, earlier),
    ensures
        activity.last_voice_activity + activity.silence_duration <= events[index].time(),
        events[index].time() < activity.last_voice_activity + activity.silence_duration + interval,
{
    lemma_quiet_prefix(activity, events, index + 1);
    assert(paced_at(activity.last_voice_activity, events, index, interval));
    if index > 0 {
        lemma_quiet_prefix(activity, events, index);
        assert(!declares_timeout(activity, events, index - 1));
    }
}

/// Quiet events leave the activity as it was, whatever prefix of them has
/// been seen.
proof fn lemma_quiet_prefix(activity: VoiceActivityState, events: Seq<SegmenterEvent>, count: int)
    requires
        all_quiet(activity, events),
        0 <= count <= events.len(),
    ensures
        activity_after(activity, events.take(count)) == activity,
{
    assert(all_quiet(activity, events.take(count))) by {
        assert forall|index: int| 0 <= index < events.take(count).len() implies is_quiet(
            activity,
            #[trigger] events.take(count)[index],
        ) by {
            assert(events.take(count)[index] == events[index]);
        }
    }
    lemma_quiet_keeps_activity(activity, events.take(count));
}

/// The timeout is not missed. If quiet events go on until the silence
/// duration has passed since the last activity, one of them is the first on
/// which the segmenter goes to `SilenceTimeout`.
pub proof fn lemma_silence_timeout_is_declared(
    activity: VoiceActivityState,
    events: Seq<SegmenterEvent>,
    reached: int,
) -> (index: int)
    requires
        all_quiet(activity, events),
        0 <= reached < events.len(),
        activity.timed_out_at(events[reached].time()),
    ensures
        0 <= index <= reached,
        declares_timeout(activity, events, index),
        forall|earlier: int| 0 <= earlier < index ==> !declares_timeout(activity, events, earlier),
    decreases reached,
{
    lemma_quiet_prefix(activity, events, reached + 1);
    if exists|earlier: int| 0 <= earlier < reached && declares_timeout(activity, events, earlier) {
        let earlier: int = choose|earlier: int|
            0 <= earlier < reached && declares_timeout(activity, events, earlier);
        lemma_quiet_prefix(activity, events, earlier + 1);
        lemma_silence_timeout_is_declared(activity, events, earlier)
    } else {
        reached
    }
}

} // verus!
