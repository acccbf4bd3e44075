use stt_pipeline::channel::{ChannelError, SampleChannel};
use stt_pipeline::sample::Sample;

fn s(bits: u32) -> Sample {
    Sample::from_bits(bits)
}

#[test]
fn new_channel_is_empty_and_connected() {
    let channel = SampleChannel::new(512);
    assert_eq!(channel.capacity(), 512);
    assert_eq!(channel.len(), 0);
    assert!(channel.is_connected());
}

#[test]
fn samples_come_out_in_the_order_pushed() {
    let mut channel = SampleChannel::new(8);
    for i in 0..8 {
        assert_eq!(channel.push(s(i)), Ok(()));
    }
    for i in 0..8 {
        assert_eq!(channel.try_pop(), Some(s(i)));
    }
    assert_eq!(channel.try_pop(), None);
}

#[test]
fn try_pop_on_empty_channel_returns_none() {
    let mut channel = SampleChannel::new(2);
    assert_eq!(channel.try_pop(), None);
    assert_eq!(channel.len(), 0);
}

#[test]
fn push_on_full_channel_reports_full_and_queues_nothing() {
    let mut channel = SampleChannel::new(2);
    assert_eq!(channel.push(s(1)), Ok(()));
    assert_eq!(channel.push(s(2)), Ok(()));
    assert_eq!(channel.push(s(3)), Err(ChannelError::Full));
    assert_eq!(channel.len(), 2);
    assert_eq!(channel.try_pop(), Some(s(1)));
    assert_eq!(channel.push(s(4)), Ok(()));
    assert_eq!(channel.try_pop(), Some(s(2)));
    assert_eq!(channel.try_pop(), Some(s(4)));
    assert_eq!(channel.try_pop(), None);
}

#[test]
fn zero_capacity_channel_is_always_full() {
    let mut channel = SampleChannel::new(0);
    assert_eq!(channel.push(s(1)), Err(ChannelError::Full));
    assert_eq!(channel.try_pop(), None);
}

#[test]
fn push_after_disconnect_fails_and_keeps_what_waits() {
    let mut channel = SampleChannel::new(4);
    assert_eq!(channel.push(s(7)), Ok(()));
    channel.disconnect();
    assert!(!channel.is_connected());
    assert_eq!(channel.push(s(8)), Err(ChannelError::Disconnected));
    assert_eq!(channel.len(), 1);
    assert_eq!(channel.try_pop(), Some(s(7)));
}

#[test]
fn disconnected_comes_before_full() {
    let mut channel = SampleChannel::new(1);
    assert_eq!(channel.push(s(1)), Ok(()));
    channel.disconnect();
    assert_eq!(channel.push(s(2)), Err(ChannelError::Disconnected));
}

#[test]
fn push_batch_takes_what_fits() {
    let mut channel = SampleChannel::new(5);
    let batch: Vec<Sample> = (0..3).map(s).collect();
    assert_eq!(channel.push_batch(&batch), (3, Ok(())));
    let batch: Vec<Sample> = (3..8).map(s).collect();
    assert_eq!(channel.push_batch(&batch), (2, Err(ChannelError::Full)));
    for i in 0..5 {
        assert_eq!(channel.try_pop(), Some(s(i)));
    }
    assert_eq!(channel.try_pop(), None);
}

#[test]
fn push_batch_without_consumer_takes_nothing() {
    let mut channel = SampleChannel::new(5);
    channel.disconnect();
    let batch: Vec<Sample> = (0..3).map(s).collect();
    assert_eq!(channel.push_batch(&batch), (0, Err(ChannelError::Disconnected)));
    assert_eq!(channel.len(), 0);
}

#[test]
fn push_batch_of_nothing_succeeds() {
    let mut channel = SampleChannel::new(0);
    assert_eq!(channel.push_batch(&[]), (0, Ok(())));
}

#[test]
fn interleaved_pushes_and_pops_keep_order_without_loss() {
    let mut channel = SampleChannel::new(7);
    let mut accepted: Vec<u32> = Vec::new();
    let mut delivered: Vec<u32> = Vec::new();
    let mut next: u32 = 0;
    let mut seed: u32 = 12345;
    for _ in 0..5000 {
        seed = seed.wrapping_mul(1664525).wrapping_add(1013904223);
        if (seed >> 16) % 3 != 0 {
            if channel.push(s(next)).is_ok() {
                accepted.push(next);
            } else {
                assert_eq!(channel.len(), 7);
            }
            next += 1;
        } else if let Some(sample) = channel.try_pop() {
            delivered.push(sample.to_bits());
        }
        assert!(channel.len() <= 7);
        assert_eq!(delivered.len() + channel.len(), accepted.len());
    }
    while let Some(sample) = channel.try_pop() {
        delivered.push(sample.to_bits());
    }
    assert_eq!(delivered, accepted);
}

#[test]
fn offer_goes_on_where_the_channel_was_full() {
    let mut channel = SampleChannel::new(3);
    let batch: Vec<Sample> = (0..8).map(s).collect();
    let mut delivered: Vec<Sample> = Vec::new();
    assert_eq!(channel.offer(&batch, 0), (3, Err(ChannelError::Full)));
    assert_eq!(channel.offer(&batch, 3), (3, Err(ChannelError::Full)));
    delivered.push(channel.try_pop().unwrap());
    assert_eq!(channel.offer(&batch, 3), (4, Err(ChannelError::Full)));
    while let Some(sample) = channel.try_pop() {
        delivered.push(sample);
    }
    assert_eq!(channel.offer(&batch, 4), (7, Err(ChannelError::Full)));
    delivered.push(channel.try_pop().unwrap());
    assert_eq!(channel.offer(&batch, 7), (8, Ok(())));
    while let Some(sample) = channel.try_pop() {
        delivered.push(sample);
    }
    assert_eq!(delivered, batch);
}

#[test]
fn offer_with_nothing_left_changes_nothing() {
    let mut channel = SampleChannel::new(3);
    let batch: Vec<Sample> = (0..2).map(s).collect();
    assert_eq!(channel.offer(&batch, 2), (2, Ok(())));
    assert_eq!(channel.offer(&batch, 9), (9, Ok(())));
    assert_eq!(channel.offer(&[], 0), (0, Ok(())));
    assert_eq!(channel.len(), 0);
    channel.disconnect();
    assert_eq!(channel.offer(&batch, 2), (2, Ok(())));
}

#[test]
fn offer_without_consumer_takes_nothing() {
    let mut channel = SampleChannel::new(3);
    let batch: Vec<Sample> = (0..2).map(s).collect();
    assert_eq!(channel.offer(&batch, 0), (2, Ok(())));
    channel.disconnect();
    assert_eq!(channel.offer(&batch, 1), (1, Err(ChannelError::Disconnected)));
    assert_eq!(channel.len(), 2);
}

#[test]
fn a_batch_passes_whole_however_the_turns_fall() {
    let batch: Vec<Sample> = (0..200).map(s).collect();
    for capacity in 1..6usize {
        let mut channel = SampleChannel::new(capacity);
        let mut delivered: Vec<Sample> = Vec::new();
        let mut sent = 0usize;
        let mut seed: u32 = capacity as u32;
        while delivered.len() < batch.len() {
            seed = seed.wrapping_mul(1664525).wrapping_add(1013904223);
            if (seed >> 16) % 2 == 0 {
                let (now_sent, outcome) = channel.offer(&batch, sent);
                assert!(now_sent >= sent);
                assert_eq!(outcome.is_ok(), now_sent == batch.len());
                sent = now_sent;
            } else if let Some(sample) = channel.try_pop() {
                delivered.push(sample);
            }
            assert_eq!(delivered.len() + channel.len(), sent);
        }
        assert_eq!(sent, batch.len());
        assert_eq!(delivered, batch);
    }
}
