use stt_pipeline::sample::Sample;
use stt_pipeline::segmenter::{
    Segmenter, SegmenterError, SegmenterEvent, SegmenterState, VoiceActivityState,
    DEFAULT_SILENCE_MICROS, DEFAULT_THRESHOLD_BITS,
};

fn sample(value: f32) -> Sample {
    Sample::from_bits(value.to_bits())
}

#[test]
fn default_thresholds() {
    assert_eq!(DEFAULT_SILENCE_MICROS, 2_000_000);
    assert_eq!(DEFAULT_THRESHOLD_BITS, 0.05f32.to_bits());
    let segmenter = Segmenter::with_defaults();
    assert_eq!(segmenter.state(), SegmenterState::Idle);
    assert_eq!(segmenter.activity().silence_duration, 2_000_000);
    assert_eq!(segmenter.activity().threshold, sample(0.05));
    assert!(segmenter.utterance().is_empty());
}

#[test]
fn voice_activity_state_measures_silence() {
    let state = VoiceActivityState::starting_at(1_000, 2_000_000, sample(0.05));
    assert_eq!(state.silence_at(1_000), 0);
    assert_eq!(state.silence_at(1_500_000), 1_499_000);
    assert_eq!(state.silence_at(10), 0);
    assert!(!state.is_timed_out(2_000_999));
    assert!(state.is_timed_out(2_001_000));
    assert!(state.is_timed_out(u64::MAX));
}

#[test]
fn voice_activity_state_observes_samples() {
    let state = VoiceActivityState::starting_at(0, 2_000_000, sample(0.05));
    assert!(state.is_voice(sample(0.3)));
    assert!(state.is_voice(sample(-0.051)));
    assert!(!state.is_voice(sample(0.05)));
    assert!(!state.is_voice(sample(0.0)));
    assert_eq!(state.observe(sample(0.3), 77).last_voice_activity, 77);
    assert_eq!(state.observe(sample(0.01), 77), state);
    assert_eq!(state.observe(sample(0.3), 77).silence_duration, 2_000_000);
    assert_eq!(state.observe(sample(0.3), 77).threshold, sample(0.05));
}

#[test]
fn start_moves_idle_to_listening() {
    let mut segmenter = Segmenter::with_defaults();
    assert_eq!(segmenter.start(5_000), Ok(()));
    assert_eq!(segmenter.state(), SegmenterState::Listening);
    assert_eq!(segmenter.activity().last_voice_activity, 5_000);
    assert!(segmenter.utterance().is_empty());
}

#[test]
fn start_is_refused_outside_idle() {
    let mut segmenter = Segmenter::with_defaults();
    assert_eq!(segmenter.start(5_000), Ok(()));
    assert_eq!(segmenter.start(6_000), Err(SegmenterError::NotIdle));
    assert_eq!(segmenter.activity().last_voice_activity, 5_000);
}

#[test]
fn accept_is_refused_outside_listening() {
    let mut segmenter = Segmenter::with_defaults();
    assert_eq!(segmenter.accept(sample(0.3), 1), Err(SegmenterError::NotListening));
    assert!(segmenter.utterance().is_empty());
    assert_eq!(segmenter.state(), SegmenterState::Idle);
}

#[test]
fn finish_is_refused_outside_silence_timeout() {
    let mut segmenter = Segmenter::with_defaults();
    assert_eq!(segmenter.finish(), Err(SegmenterError::NotTimedOut));
    assert_eq!(segmenter.start(0), Ok(()));
    assert_eq!(segmenter.accept(sample(0.3), 10), Ok(SegmenterState::Listening));
    assert_eq!(segmenter.finish(), Err(SegmenterError::NotTimedOut));
    assert_eq!(segmenter.utterance().len(), 1);
}

#[test]
fn every_sample_is_appended_and_loud_ones_reset_the_timer() {
    let mut segmenter = Segmenter::with_defaults();
    assert_eq!(segmenter.start(0), Ok(()));
    assert_eq!(segmenter.accept(sample(0.01), 100), Ok(SegmenterState::Listening));
    assert_eq!(segmenter.activity().last_voice_activity, 0);
    assert_eq!(segmenter.accept(sample(-0.3), 200), Ok(SegmenterState::Listening));
    assert_eq!(segmenter.activity().last_voice_activity, 200);
    assert_eq!(segmenter.accept(sample(0.05), 300), Ok(SegmenterState::Listening));
    assert_eq!(segmenter.activity().last_voice_activity, 200);
    assert_eq!(segmenter.utterance(), &vec![sample(0.01), sample(-0.3), sample(0.05)]);
}

#[test]
fn loud_sample_after_long_silence_keeps_listening() {
    let mut segmenter = Segmenter::with_defaults();
    assert_eq!(segmenter.start(0), Ok(()));
    assert_eq!(segmenter.accept(sample(0.3), 5_000_000), Ok(SegmenterState::Listening));
    assert_eq!(segmenter.activity().last_voice_activity, 5_000_000);
}

#[test]
fn quiet_sample_at_the_deadline_times_out_and_is_kept() {
    let mut segmenter = Segmenter::with_defaults();
    assert_eq!(segmenter.start(1_000), Ok(()));
    assert_eq!(segmenter.accept(sample(0.0), 2_000_999), Ok(SegmenterState::Listening));
    assert_eq!(segmenter.accept(sample(0.0), 2_001_000), Ok(SegmenterState::SilenceTimeout));
    assert_eq!(segmenter.state(), SegmenterState::SilenceTimeout);
    assert_eq!(segmenter.utterance().len(), 2);
    assert_eq!(segmenter.accept(sample(0.3), 2_001_001), Err(SegmenterError::NotListening));
    assert_eq!(segmenter.utterance().len(), 2);
}

#[test]
fn poll_times_out_without_a_sample() {
    let mut segmenter = Segmenter::new(1_000, sample(0.05));
    assert_eq!(segmenter.poll(5_000), SegmenterState::Idle);
    assert_eq!(segmenter.start(10), Ok(()));
    assert_eq!(segmenter.poll(1_009), SegmenterState::Listening);
    assert_eq!(segmenter.poll(5), SegmenterState::Listening);
    assert_eq!(segmenter.poll(1_010), SegmenterState::SilenceTimeout);
    assert_eq!(segmenter.poll(0), SegmenterState::SilenceTimeout);
    assert!(segmenter.utterance().is_empty());
}

#[test]
fn zero_silence_duration_times_out_at_once() {
    let mut segmenter = Segmenter::new(0, sample(0.05));
    assert_eq!(segmenter.start(10), Ok(()));
    assert_eq!(segmenter.accept(sample(0.3), 10), Ok(SegmenterState::SilenceTimeout));
}

#[test]
fn finish_empties_the_utterance_and_returns_to_idle() {
    let mut segmenter = Segmenter::new(100, sample(0.05));
    assert_eq!(segmenter.start(0), Ok(()));
    assert_eq!(segmenter.accept(sample(0.3), 10), Ok(SegmenterState::Listening));
    assert_eq!(segmenter.accept(sample(0.0), 110), Ok(SegmenterState::SilenceTimeout));
    assert_eq!(segmenter.finish(), Ok(()));
    assert_eq!(segmenter.state(), SegmenterState::Idle);
    assert!(segmenter.utterance().is_empty());
    assert_eq!(segmenter.start(500), Ok(()));
    assert_eq!(segmenter.activity().silence_duration, 100);
    assert_eq!(segmenter.activity().last_voice_activity, 500);
}

#[test]
fn step_dispatches_samples_and_ticks() {
    let mut segmenter = Segmenter::new(100, sample(0.05));
    assert_eq!(segmenter.step(SegmenterEvent::Tick { now: 1 }), Ok(SegmenterState::Idle));
    assert_eq!(
        segmenter.step(SegmenterEvent::Sample { sample: sample(0.3), now: 1 }),
        Err(SegmenterError::NotListening)
    );
    assert_eq!(segmenter.start(0), Ok(()));
    assert_eq!(
        segmenter.step(SegmenterEvent::Sample { sample: sample(0.3), now: 40 }),
        Ok(SegmenterState::Listening)
    );
    assert_eq!(segmenter.step(SegmenterEvent::Tick { now: 139 }), Ok(SegmenterState::Listening));
    assert_eq!(
        segmenter.step(SegmenterEvent::Tick { now: 140 }),
        Ok(SegmenterState::SilenceTimeout)
    );
    assert_eq!(segmenter.utterance().len(), 1);
}

// Amplitude 0.3 for half a second, then silence, one sample every 100
// microseconds: the timeout comes two seconds after the last loud sample,
// within one interval.
#[test]
fn silence_timeout_comes_two_seconds_after_the_last_loud_sample() {
    let interval: u64 = 100;
    let mut segmenter = Segmenter::new(2_000_000, sample(0.05));
    assert_eq!(segmenter.start(0), Ok(()));
    let mut now: u64 = 0;
    let mut last_loud: u64 = 0;
    for i in 0..5_000u32 {
        now += interval;
        let value = if i % 2 == 0 { 0.3 } else { -0.3 };
        assert_eq!(segmenter.accept(sample(value), now), Ok(SegmenterState::Listening));
        last_loud = now;
    }
    assert_eq!(last_loud, 500_000);
    let mut pushed: usize = 5_000;
    loop {
        now += interval;
        pushed += 1;
        let state = segmenter.accept(sample(0.0), now).unwrap();
        if state == SegmenterState::SilenceTimeout {
            break;
        }
        assert!(now < last_loud + 2_000_000);
    }
    assert!(now >= last_loud + 2_000_000);
    assert!(now < last_loud + 2_000_000 + interval);
    assert_eq!(now, 2_500_000);
    assert_eq!(segmenter.utterance().len(), pushed);
    assert_eq!(segmenter.activity().last_voice_activity, last_loud);
}

#[test]
fn silence_timeout_with_an_uneven_poll_interval() {
    let mut segmenter = Segmenter::new(2_000_000, sample(0.05));
    assert_eq!(segmenter.start(0), Ok(()));
    assert_eq!(segmenter.accept(sample(0.3), 300_000), Ok(SegmenterState::Listening));
    let mut now: u64 = 300_000;
    let mut step: u64 = 1;
    let mut state = SegmenterState::Listening;
    while state == SegmenterState::Listening {
        step = step % 7_000 + 13;
        now += step;
        state = if step % 2 == 0 {
            segmenter.poll(now)
        } else {
            segmenter.accept(sample(0.049), now).unwrap()
        };
    }
    assert_eq!(state, SegmenterState::SilenceTimeout);
    assert!(now >= 2_300_000);
    assert!(now < 2_300_000 + 7_013);
}
