//! One recording session: record, transcribe, emit, and again.
//!
//! The session decides; its caller acts. Each call of `Stt::record` takes
//! what has just happened (the stream was resumed, a sample arrived, the
//! engine answered) and returns what to do next (resume the stream, poll the
//! channel, run the engine, print the text). The device and the engine stay
//! with the caller.

use vstd::prelude::*;
use crate::channel::SampleChannel;
use crate::sample::Sample;
use crate::segmenter::{Segmenter, SegmenterState, VoiceActivityState};
use crate::transcript::{assemble, segment_views, transcript_of};

verus! {

/// Whether the device stream delivers batches to the producer.
#[derive(Clone, Copy, Debug, PartialEq, Eq, Structural)]
pub enum CaptureState {
    Paused,
    Playing,
}

/// Why the stream could not be resumed or paused.
#[derive(Clone, Copy, Debug, PartialEq, Eq, Structural)]
pub enum CaptureError {
    /// The device has become unavailable.
    DeviceUnavailable,
}

/// Keeps track of whether the device stream plays, and with it of when the
/// producer's callback may run: from a resume to the matching pause.
///
/// The controller does not touch the device. Its caller does, and tells
/// the controller how it went.
#[derive(Clone, Copy, Debug, PartialEq, Eq, Structural)]
pub struct CaptureController {
    pub state: CaptureState,
}

impl CaptureController {
    /// A controller of a stream that is paused.
    pub fn new() -> (controller: CaptureController)
        ensures
            controller.state is Paused,
    {
        CaptureController { state: CaptureState::Paused }
    }

    /// Whether the stream plays, so that the callback may run.
    pub fn is_playing(&self) -> (playing: bool)
        ensures
            playing == (self.state is Playing),
    {
        match self.state {
            CaptureState::Playing => true,
            CaptureState::Paused => false,
        }
    }

    /// The device was asked to resume the stream; `device_ok` says whether
    /// it did. On success the stream plays. On failure it is paused for
    /// good and the failure is returned.
    pub fn resume(&mut self, device_ok: bool) -> (resumed: Result<(), CaptureError>)
        ensures
            device_ok ==> resumed is Ok && final(self).state is Playing,
            !device_ok ==> resumed == Err::<(), CaptureError>(CaptureError::DeviceUnavailable)
                && final(self).state is Paused,
    {
        if device_ok {
            self.state = CaptureState::Playing;
            Ok(())
        } else {
            self.state = CaptureState::Paused;
            Err(CaptureError::DeviceUnavailable)
        }
    }

    /// The device was asked to pause the stream; `device_ok` says whether
    /// it did. Either way the stream no longer plays; on failure the
    /// failure is returned.
    pub fn pause(&mut self, device_ok: bool) -> (paused: Result<(), CaptureError>)
        ensures
            final(self).state is Paused,
            device_ok ==> paused is Ok,
            !device_ok ==> paused == Err::<(), CaptureError>(CaptureError::DeviceUnavailable),
    {
        self.state = CaptureState::Paused;
        if device_ok {
            Ok(())
        } else {
            Err(CaptureError::DeviceUnavailable)
        }
    }
}

/// Where the session stands.
#[derive(Clone, Copy, Debug, PartialEq, Eq, Structural)]
pub enum SessionPhase {
    /// Between two recordings.
    Idle,
    /// The stream has been asked to resume.
    Resuming,
    /// The stream plays and the utterance grows.
    Listening,
    /// The silence timeout has struck and the stream has been asked to pause.
    Pausing,
    /// The utterance is with the engine.
    Transcribing,
    /// The device is gone; the session is over.
    Failed,
}

/// Why a session was given up.
#[derive(Clone, Copy, Debug, PartialEq, Eq, Structural)]
pub enum SessionError {
    /// The device could not resume or pause the stream.
    DeviceUnavailable,
}

/// What has just happened.
#[derive(Debug)]
pub enum SessionEvent {
    /// The caller wants one utterance recorded.
    Begin,
    /// The device resumed the stream at `now`.
    StreamResumed { now: u64 },
    /// The device paused the stream.
    StreamPaused,
    /// The device refused or failed.
    DeviceFailed,
    /// A sample was popped from the channel at `now`.
    Sample { sample: Sample, now: u64 },
    /// Nothing was waiting in the channel at `now`.
    Tick { now: u64 },
    /// The engine returned the segments of the utterance, in order.
    Transcribed { segments: Vec<String> },
    /// The engine failed on the utterance.
    InferenceFailed,
}

/// What to do next.
#[derive(Debug)]
pub enum SessionAction {
    /// Resume the device stream and report how it went.
    ResumeStream,
    /// Pop the channel, read the clock and report what came.
    Poll,
    /// Pause the device stream and report how it went.
    PauseStream,
    /// Hand the utterance to the engine and report what it returned.
    Transcribe,
    /// The utterance is done: this is its text.
    Emit { text: String },
    /// The session cannot go on.
    Abort { reason: SessionError },
    /// The event does not belong here; nothing has changed.
    Ignore,
}

/// An event as contracts see it.
pub enum EventView {
    Begin,
    StreamResumed { now: u64 },
    StreamPaused,
    DeviceFailed,
    Sample { sample: Sample, now: u64 },
    Tick { now: u64 },
    Transcribed { segments: Seq<Seq<char>> },
    InferenceFailed,
}

/// An action as contracts see it.
pub enum ActionView {
    ResumeStream,
    Poll,
    PauseStream,
    Transcribe,
    Emit { text: Seq<char> },
    Abort { reason: SessionError },
    Ignore,
}

impl View for SessionEvent {
    type V = EventView;

    open spec fn view(&self) -> EventView {
        match *self {
            SessionEvent::Begin => EventView::Begin,
            SessionEvent::StreamResumed { now } => EventView::StreamResumed { now },
            SessionEvent::StreamPaused => EventView::StreamPaused,
            SessionEvent::DeviceFailed => EventView::DeviceFailed,
            SessionEvent::Sample { sample, now } => EventView::Sample { sample, now },
            SessionEvent::Tick { now } => EventView::Tick { now },
            SessionEvent::Transcribed { segments } => EventView::Transcribed {
                segments: segment_views(segments@),
            },
            SessionEvent::InferenceFailed => EventView::InferenceFailed,
        }
    }
}

impl View for SessionAction {
    type V = ActionView;

    open spec fn view(&self) -> ActionView {
        match *self {
            SessionAction::ResumeStream => ActionView::ResumeStream,
            SessionAction::Poll => ActionView::Poll,
            SessionAction::PauseStream => ActionView::PauseStream,
            SessionAction::Transcribe => ActionView::Transcribe,
            SessionAction::Emit { text } => ActionView::Emit { text: text@ },
            SessionAction::Abort { reason } => ActionView::Abort { reason },
            SessionAction::Ignore => ActionView::Ignore,
        }
    }
}

/// A session as contracts see it.
pub struct SessionModel {
    pub phase: SessionPhase,
    pub capture: CaptureState,
    pub activity: VoiceActivityState,
    pub utterance: Seq<Sample>,
}

/// The session after a device failure.
pub open spec fn failed(model: SessionModel) -> (SessionModel, ActionView) {
    (
        SessionModel { phase: SessionPhase::Failed, capture: CaptureState::Paused, ..model },
        ActionView::Abort { reason: SessionError::DeviceUnavailable },
    )
}

/// The listening session after the silence has been measured at `now`.
pub open spec fn measured(model: SessionModel, now: u64) -> (SessionModel, ActionView) {
    if model.activity.timed_out_at(now) {
        (SessionModel { phase: SessionPhase::Pausing, ..model }, ActionView::PauseStream)
    } else {
        (model, ActionView::Poll)
    }
}

/// The session after `event`, and what it asks for.
pub open spec fn session_step(model: SessionModel, event: EventView) -> (SessionModel, ActionView) {
    match (model.phase, event) {
        (SessionPhase::Idle, EventView::Begin) => (
            SessionModel { phase: SessionPhase::Resuming, ..model },
            ActionView::ResumeStream,
        ),
        (SessionPhase::Resuming, EventView::StreamResumed { now }) => (
            SessionModel {
                phase: SessionPhase::Listening,
                capture: CaptureState::Playing,
                activity: VoiceActivityState { last_voice_activity: now, ..model.activity },
                utterance: Seq::empty(),
            },
            ActionView::Poll,
        ),
        (SessionPhase::Listening, EventView::Sample { sample, now }) => measured(
            SessionModel {
                activity: model.activity.observed(sample, now),
                utterance: model.utterance.push(sample),
                ..model
            },
            now,
        ),
        (SessionPhase::Listening, EventView::Tick { now }) => measured(model, now),
        (SessionPhase::Pausing, EventView::StreamPaused) => (
            SessionModel {
                phase: SessionPhase::Transcribing,
                capture: CaptureState::Paused,
                ..model
            },
            ActionView::Transcribe,
        ),
        (SessionPhase::Transcribing, EventView::Transcribed { segments }) => (
            SessionModel { phase: SessionPhase::Idle, utterance: Seq::empty(), ..model },
            ActionView::Emit { text: transcript_of(segments) },
        ),
        (SessionPhase::Transcribing, EventView::InferenceFailed) => (
            SessionModel { phase: SessionPhase::Resuming, utterance: Seq::empty(), ..model },
            ActionView::ResumeStream,
        ),
        (SessionPhase::Resuming, EventView::DeviceFailed) => failed(model),
        (SessionPhase::Listening, EventView::DeviceFailed) => failed(model),
        (SessionPhase::Pausing, EventView::DeviceFailed) => failed(model),
        _ => (model, ActionView::Ignore),
    }
}

/// The listening session after it has taken, at `now`, what waits in the
/// channel: sample after sample, oldest first, until one of them brings
/// the silence timeout or none is left; where none is left, the silence is
/// measured once more. The second part is what stays in the channel.
pub open spec fn session_listen(model: SessionModel, waiting: Seq<Sample>, now: u64) -> (
    SessionModel,
    Seq<Sample>,
    ActionView,
)
    decreases waiting.len(),
{
    if waiting.len() == 0 {
        let (next, action) = session_step(model, EventView::Tick { now });
        (next, waiting, action)
    } else {
        let (next, action) = session_step(model, EventView::Sample { sample: waiting[0], now });
        if action is Poll {
            session_listen(next, waiting.drop_first(), now)
        } else {
            (next, waiting.drop_first(), action)
        }
    }
}

/// What holds of a session in every state: the stream plays exactly while
/// the session listens or waits for the pause, and outside a recording the
/// utterance is empty.
pub open spec fn session_invariant(model: SessionModel) -> bool {
    &&& model.capture is Playing <==> (model.phase is Listening || model.phase is Pausing)
    &&& (model.phase is Idle || model.phase is Resuming) ==> model.utterance.len() == 0
}

/// No event breaks the session's invariant.
pub proof fn lemma_step_keeps_invariant(model: SessionModel, event: EventView)
    requires
        session_invariant(model),
    ensures
        session_invariant(session_step(model, event).0),
{
}

/// The producer is let in by a resume and shut out by the matching pause:
/// the stream starts to play only on `StreamResumed` and stops only on
/// `StreamPaused` or on a device failure.
pub proof fn lemma_capture_changes_only_on_device_events(model: SessionModel, event: EventView)
    requires
        session_invariant(model),
    ensures
        model.capture is Paused && session_step(model, event).0.capture is Playing
            ==> event is StreamResumed,
        model.capture is Playing && session_step(model, event).0.capture is Paused ==> event
            is StreamPaused || event is DeviceFailed,
{
}

/// The utterance only grows while a recording lasts: an event either
/// leaves it, appends the sample it carries, or empties it.
pub proof fn lemma_utterance_is_append_only(model: SessionModel, event: EventView)
    ensures
        ({
            let next = session_step(model, event).0;
            ||| next.utterance == model.utterance
            ||| (event matches EventView::Sample { sample, .. } && next.utterance
                == model.utterance.push(sample))
            ||| next.utterance == Seq::<Sample>::empty()
        }),
{
}

/// Listening loses no sample and keeps the order: the utterance, followed
/// by what stays in the channel, is afterwards what it was before.
pub proof fn lemma_listen_keeps_every_sample(model: SessionModel, waiting: Seq<Sample>, now: u64)
    requires
        model.phase is Listening,
    ensures
        ({
            let (next, rest, action) = session_listen(model, waiting, now);
            &&& next.utterance + rest == model.utterance + waiting
            &&& action is Poll || action is PauseStream
            &&& action is Poll ==> rest.len() == 0 && next.phase is Listening
            &&& action is PauseStream ==> next.phase is Pausing
        }),
    decreases waiting.len(),
{
    if waiting.len() > 0 {
        let (next, action) = session_step(model, EventView::Sample { sample: waiting[0], now });
        assert(model.utterance.push(waiting[0]) + waiting.drop_first() =~= model.utterance
            + waiting);
        if action is Poll {
            lemma_listen_keeps_every_sample(next, waiting.drop_first(), now);
        }
    } else {
        assert(model.utterance + waiting =~= model.utterance);
    }
}

/// The fixed settings of the recognition engine, made once and kept.
#[derive(Clone, Copy, Debug, PartialEq, Eq, Structural)]
pub struct RecognitionSettings {
    /// Worker threads of the engine.
    pub threads: u32,
    /// Whether the engine translates to English.
    pub translate: bool,
    /// Whether the engine prints special tokens.
    pub print_special: bool,
    /// Whether the engine prints its progress.
    pub print_progress: bool,
    /// Whether the engine prints text as it is found.
    pub print_realtime: bool,
    /// Whether the engine prints time offsets.
    pub print_timestamps: bool,
}

/// The language the engine is told to expect.
pub const TARGET_LANGUAGE: &'static str = "en";

/// One thread, translation on, every printing toggle off.
pub open spec fn standard_settings() -> RecognitionSettings {
    RecognitionSettings {
        threads: 1,
        translate: true,
        print_special: false,
        print_progress: false,
        print_realtime: false,
        print_timestamps: false,
    }
}

impl RecognitionSettings {
    /// One thread, translation on, every printing toggle off.
    pub fn standard() -> (settings: RecognitionSettings)
        ensures
            settings == standard_settings(),
    {
        RecognitionSettings {
            threads: 1,
            translate: true,
            print_special: false,
            print_progress: false,
            print_realtime: false,
            print_timestamps: false,
        }
    }
}

/// A speech-to-text session.
pub struct Stt {
    phase: SessionPhase,
    capture: CaptureController,
    segmenter: Segmenter,
    settings: RecognitionSettings,
}

impl View for Stt {
    type V = SessionModel;

    closed spec fn view(&self) -> SessionModel {
        SessionModel {
            phase: self.phase,
            capture: self.capture.state,
            activity: self.segmenter.spec_activity(),
            utterance: self.segmenter@,
        }
    }
}

impl Stt {
    /// The segmenter is sound and stands where the phase says.
    pub closed spec fn wf(&self) -> bool {
        &&& self.segmenter.wf()
        &&& session_invariant(self@)
        &&& match self.phase {
            SessionPhase::Idle => self.segmenter.spec_state() is Idle,
            SessionPhase::Resuming => self.segmenter.spec_state() is Idle,
            SessionPhase::Listening => self.segmenter.spec_state() is Listening,
            SessionPhase::Pausing => self.segmenter.spec_state() is SilenceTimeout,
            SessionPhase::Transcribing => self.segmenter.spec_state() is SilenceTimeout,
            SessionPhase::Failed => true,
        }
    }

    /// The engine settings of the session.
    pub closed spec fn spec_settings(&self) -> RecognitionSettings {
        self.settings
    }

    /// A well-formed session satisfies the session's invariant.
    pub proof fn lemma_wf_implies_invariant(&self)
        requires
            self.wf(),
        ensures
            session_invariant(self@),
    {
    }

    /// An idle session with a paused stream, the given thresholds and the
    /// standard engine settings.
    pub fn new(silence_duration: u64, threshold: Sample) -> (stt: Stt)
        ensures
            stt.wf(),
            stt@.phase is Idle,
            stt@.capture is Paused,
            stt@.utterance == Seq::<Sample>::empty(),
            stt@.activity.silence_duration == silence_duration,
            stt@.activity.threshold == threshold,
            stt.spec_settings() == standard_settings(),
    {
        Stt {
            phase: SessionPhase::Idle,
            capture: CaptureController::new(),
            segmenter: Segmenter::new(silence_duration, threshold),
            settings: RecognitionSettings::standard(),
        }
    }

    /// Where the session stands.
    pub fn phase(&self) -> (phase: SessionPhase)
        ensures
            phase == self@.phase,
    {
        self.phase
    }

    /// Whether the stream plays.
    pub fn capture(&self) -> (capture: CaptureState)
        ensures
            capture == self@.capture,
    {
        self.capture.state
    }

    /// The engine settings, the same in every cycle.
    pub fn settings(&self) -> (settings: RecognitionSettings)
        ensures
            settings == self.spec_settings(),
    {
        self.settings
    }

    /// The utterance recorded so far.
    pub fn utterance(&self) -> (utterance: &Vec<Sample>)
        ensures
            utterance@ == self@.utterance,
    {
        self.segmenter.utterance()
    }

    /// Takes one event and returns what to do next.
    ///
    /// The cycle of one utterance: `Begin` asks for the stream to resume;
    /// once it plays, samples and ticks are taken until the silence timeout
    /// asks for the pause; once paused, the utterance goes to the engine;
    /// its segments come back and their text is emitted. A failed inference
    /// discards the utterance and starts the recording again. A device
    /// failure ends the session. An event out of turn is ignored.
    pub fn record(&mut self, event: SessionEvent) -> (action: SessionAction)
        requires
            old(self).wf(),
        ensures
            final(self).wf(),
            final(self).spec_settings() == old(self).spec_settings(),
            final(self)@ == session_step(old(self)@, event@).0,
            action@ == session_step(old(self)@, event@).1,
    {
        match self.phase {
            SessionPhase::Idle => match event {
                SessionEvent::Begin => {
                    self.phase = SessionPhase::Resuming;
                    SessionAction::ResumeStream
                },
                _ => SessionAction::Ignore,
            },
            SessionPhase::Resuming => match event {
                SessionEvent::StreamResumed { now } => {
                    let _ = self.segmenter.start(now);
                    let _ = self.capture.resume(true);
                    self.phase = SessionPhase::Listening;
                    SessionAction::Poll
                },
                SessionEvent::DeviceFailed => self.fail(),
                _ => SessionAction::Ignore,
            },
            SessionPhase::Listening => match event {
                SessionEvent::Sample { sample, now } => {
                    let _ = self.segmenter.accept(sample, now);
                    self.measure()
                },
                SessionEvent::Tick { now } => {
                    let _ = self.segmenter.poll(now);
                    self.measure()
                },
                SessionEvent::DeviceFailed => self.fail(),
                _ => SessionAction::Ignore,
            },
            SessionPhase::Pausing => match event {
                SessionEvent::StreamPaused => {
                    let _ = self.capture.pause(true);
                    self.phase = SessionPhase::Transcribing;
                    SessionAction::Transcribe
                },
                SessionEvent::DeviceFailed => self.fail(),
                _ => SessionAction::Ignore,
            },
            SessionPhase::Transcribing => match event {
                SessionEvent::Transcribed { segments } => {
                    let text: String = assemble(&segments);
                    let _ = self.segmenter.finish();
                    self.phase = SessionPhase::Idle;
                    SessionAction::Emit { text }
                },
                SessionEvent::InferenceFailed => {
                    let _ = self.segmenter.finish();
                    self.phase = SessionPhase::Resuming;
                    SessionAction::ResumeStream
                },
                _ => SessionAction::Ignore,
            },
            SessionPhase::Failed => SessionAction::Ignore,
        }
    }

    /// What `Poll` asks for, done on the channel itself: takes the waiting
    /// samples at the clock reading `now`, oldest first, until one of them
    /// brings the silence timeout or the channel is empty, and measures the
    /// silence once more where it came to be empty.
    ///
    /// Samples behind the one that brought the timeout stay in the channel.
    /// Outside `Listening` nothing is taken and the answer is `Ignore`.
    pub fn listen(&mut self, channel: &mut SampleChannel, now: u64) -> (action: SessionAction)
        requires
            old(self).wf(),
            old(channel).wf(),
        ensures
            final(self).wf(),
            final(channel).wf(),
            final(self).spec_settings() == old(self).spec_settings(),
            final(channel).spec_capacity() == old(channel).spec_capacity(),
            final(channel).spec_connected() == old(channel).spec_connected(),
            old(self)@.phase is Listening ==> (final(self)@, final(channel)@, action@)
                == session_listen(old(self)@, old(channel)@, now),
            !(old(self)@.phase is Listening) ==> {
                &&& final(self)@ == old(self)@
                &&& final(channel)@ == old(channel)@
                &&& action@ == ActionView::Ignore
            },
    {
        match self.phase {
            SessionPhase::Listening => {},
            _ => {
                return SessionAction::Ignore;
            },
        }
        loop
            invariant
                self.wf(),
                channel.wf(),
                self.phase is Listening,
                self.spec_settings() == old(self).spec_settings(),
                channel.spec_capacity() == old(channel).spec_capacity(),
                channel.spec_connected() == old(channel).spec_connected(),
                session_listen(self@, channel@, now) == session_listen(
                    old(self)@,
                    old(channel)@,
                    now,
                ),
            decreases channel@.len(),
        {
            match channel.try_pop() {
                Some(sample) => {
                    let action: SessionAction = self.record(SessionEvent::Sample { sample, now });
                    match action {
                        SessionAction::Poll => {},
                        _ => {
                            return action;
                        },
                    }
                },
                None => {
                    return self.record(SessionEvent::Tick { now });
                },
            }
        }
    }

    /// The device is gone.
    fn fail(&mut self) -> (action: SessionAction)
        ensures
            final(self).segmenter == old(self).segmenter,
            final(self).settings == old(self).settings,
            final(self).phase is Failed,
            final(self).capture.state is Paused,
            action@ == (ActionView::Abort { reason: SessionError::DeviceUnavailable }),
    {
        self.phase = SessionPhase::Failed;
        let _ = if self.capture.is_playing() {
            self.capture.pause(false)
        } else {
            self.capture.resume(false)
        };
        SessionAction::Abort { reason: SessionError::DeviceUnavailable }
    }

    /// After the segmenter has measured the silence: go on or pause.
    fn measure(&mut self) -> (action: SessionAction)
        requires
            old(self).phase is Listening,
        ensures
            final(self).segmenter == old(self).segmenter,
            final(self).settings == old(self).settings,
            final(self).capture == old(self).capture,
            old(self).segmenter.spec_state() is SilenceTimeout ==> final(self).phase is Pausing
                && action@ == ActionView::PauseStream,
            !(old(self).segmenter.spec_state() is SilenceTimeout) ==> final(self).phase
                is Listening && action@ == ActionView::Poll,
    {
        match self.segmenter.state() {
            SegmenterState::SilenceTimeout => {
                self.phase = SessionPhase::Pausing;
                SessionAction::PauseStream
            },
            _ => SessionAction::Poll,
        }
    }
}

} // verus!
