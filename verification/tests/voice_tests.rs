use stt_pipeline::voice::{detect_voice, file_verdict, frame_at, VoiceError};
use webrtc_vad::Vad;

#[test]
fn silence_is_not_voice() {
    let mut vad = Vad::new();
    let samples = vec![0i16; 160];
    assert_eq!(detect_voice(&mut vad, &samples, 160), Ok(vec![false]));
    assert_eq!(detect_voice(&mut vad, &samples, 80), Ok(vec![false, false]));
}

#[test]
fn a_short_last_frame_of_valid_length_is_put_to_the_detector() {
    let mut vad = Vad::new();
    let samples = vec![0i16; 240 + 80];
    assert_eq!(detect_voice(&mut vad, &samples, 240), Ok(vec![false, false]));
}

#[test]
fn no_samples_make_no_frames() {
    let mut vad = Vad::new();
    assert_eq!(detect_voice(&mut vad, &[], 160), Ok(vec![]));
}

#[test]
fn zero_frame_size_is_refused() {
    let mut vad = Vad::new();
    assert_eq!(detect_voice(&mut vad, &[0i16; 160], 0), Err(VoiceError::ZeroFrameSize));
    assert_eq!(detect_voice(&mut vad, &[], 0), Err(VoiceError::ZeroFrameSize));
}

#[test]
fn a_frame_of_invalid_length_is_reported_with_its_index() {
    let mut vad = Vad::new();
    assert_eq!(
        detect_voice(&mut vad, &[0i16; 300], 100),
        Err(VoiceError::FrameRejected { index: 0 })
    );
    assert_eq!(
        detect_voice(&mut vad, &[0i16; 200], 160),
        Err(VoiceError::FrameRejected { index: 1 })
    );
    assert_eq!(
        detect_voice(&mut vad, &[0i16; 1024], 960),
        Err(VoiceError::FrameRejected { index: 0 })
    );
}

fn tone(len: usize) -> Vec<i16> {
    (0..len)
        .map(|i| {
            let phase = (i % 40) as f32 / 40.0 * std::f32::consts::TAU;
            ((phase.sin() * 0.6 + (phase * 3.0).sin() * 0.3) * 20000.0) as i16
        })
        .collect()
}

#[test]
fn a_loud_tone_is_heard_at_some_point() {
    let mut vad = Vad::new();
    let verdicts = detect_voice(&mut vad, &tone(8000), 240).unwrap();
    assert_eq!(verdicts.len(), 34);
    assert!(verdicts.iter().any(|voice| *voice));
}

#[test]
fn the_detector_hears_the_frames_themselves_in_order() {
    let mut samples = vec![0i16; 2400];
    samples.extend(tone(2400));
    samples.extend(vec![0i16; 2400]);
    samples.extend(tone(2400 + 80));
    let mut reference = Vad::new();
    let mut expected: Vec<bool> = Vec::new();
    for frame in samples.chunks(240) {
        expected.push(reference.is_voice_segment(frame).unwrap());
    }
    assert_eq!(expected.len(), 41);
    assert!(expected.iter().any(|voice| *voice));
    assert!(expected.iter().any(|voice| !*voice));
    let mut vad = Vad::new();
    assert_eq!(detect_voice(&mut vad, &samples, 240), Ok(expected));
}

#[test]
fn frame_at_cuts_consecutive_frames() {
    let samples: Vec<i16> = (0..2000).map(|i| i as i16).collect();
    assert_eq!(frame_at(&samples, 960, 0), Some(&samples[0..960]));
    assert_eq!(frame_at(&samples, 960, 1), Some(&samples[960..1920]));
    assert_eq!(frame_at(&samples, 960, 2), Some(&samples[1920..2000]));
    assert_eq!(frame_at(&samples, 960, 3), None);
    assert_eq!(frame_at(&samples, 960, usize::MAX), None);
}

#[test]
fn frame_at_has_no_short_frame_where_nothing_is_left() {
    let samples: Vec<i16> = (0..1920).map(|i| i as i16).collect();
    assert_eq!(frame_at(&samples, 960, 1), Some(&samples[960..1920]));
    assert_eq!(frame_at(&samples, 960, 2), None);
    assert_eq!(frame_at(&samples, 1920, 0), Some(&samples[..]));
    assert_eq!(frame_at(&samples, 5000, 0), Some(&samples[..]));
    assert_eq!(frame_at(&samples, 5000, 1), None);
    assert_eq!(frame_at(&samples, usize::MAX, 0), Some(&samples[..]));
}

#[test]
fn frame_at_finds_no_frame_without_samples_or_frame_length() {
    assert_eq!(frame_at(&[], 960, 0), None);
    assert_eq!(frame_at(&[1i16, 2, 3], 0, 0), None);
    assert_eq!(frame_at(&[], 0, 0), None);
}

#[test]
fn the_frames_laid_end_to_end_are_the_samples() {
    let samples: Vec<i16> = (0..1000).map(|i| (i * 7 % 31) as i16).collect();
    for frame_size in [1usize, 2, 3, 7, 80, 333, 999, 1000, 1001] {
        let mut joined: Vec<i16> = Vec::new();
        let mut index = 0usize;
        while let Some(frame) = frame_at(&samples, frame_size, index) {
            assert!(!frame.is_empty());
            let last = frame_at(&samples, frame_size, index + 1).is_none();
            if last {
                assert!(frame.len() <= frame_size);
            } else {
                assert_eq!(frame.len(), frame_size);
            }
            joined.extend_from_slice(frame);
            index += 1;
        }
        assert_eq!(index, (samples.len() + frame_size - 1) / frame_size);
        assert_eq!(joined, samples);
    }
}

#[test]
fn file_verdict_appends_or_reports() {
    let mut verdicts: Vec<bool> = Vec::new();
    assert_eq!(file_verdict(&mut verdicts, Ok(true)), Ok(()));
    assert_eq!(file_verdict(&mut verdicts, Ok(false)), Ok(()));
    assert_eq!(verdicts, vec![true, false]);
    assert_eq!(file_verdict(&mut verdicts, Err(())), Err(VoiceError::FrameRejected { index: 2 }));
    assert_eq!(verdicts, vec![true, false]);
}
