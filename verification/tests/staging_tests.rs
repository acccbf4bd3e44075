use stt_pipeline::sample::Sample;
use stt_pipeline::staging::{StagingBuffer, StagingError};

fn ramp(from: u32, count: usize) -> Vec<Sample> {
    (0..count as u32).map(|i| Sample::from_bits(from + i)).collect()
}

fn bits(samples: &[Sample]) -> Vec<u32> {
    samples.iter().map(|s| s.to_bits()).collect()
}

#[test]
fn new_refuses_zero_chunk() {
    assert_eq!(StagingBuffer::new(0, 16).err(), Some(StagingError::ZeroChunk));
    assert_eq!(StagingBuffer::new(0, 0).err(), Some(StagingError::ZeroChunk));
}

#[test]
fn new_refuses_capacity_below_chunk() {
    assert_eq!(StagingBuffer::new(8, 7).err(), Some(StagingError::CapacityBelowChunk));
}

#[test]
fn new_buffer_is_empty() {
    let buffer = StagingBuffer::new(4, 10).unwrap();
    assert_eq!(buffer.pending(), 0);
    assert_eq!(buffer.chunk_size(), 4);
    assert_eq!(buffer.capacity(), 10);
}

#[test]
fn stage_and_release_in_order() {
    let mut buffer = StagingBuffer::new(4, 10).unwrap();
    assert_eq!(buffer.stage(&ramp(0, 3)), Ok(()));
    assert_eq!(buffer.pending(), 3);
    assert!(buffer.release().is_none());
    assert_eq!(buffer.pending(), 3);
    assert_eq!(buffer.stage(&ramp(3, 6)), Ok(()));
    assert_eq!(buffer.pending(), 9);
    assert_eq!(bits(&buffer.release().unwrap()), vec![0, 1, 2, 3]);
    assert_eq!(bits(&buffer.release().unwrap()), vec![4, 5, 6, 7]);
    assert!(buffer.release().is_none());
    assert_eq!(buffer.pending(), 1);
}

#[test]
fn stage_is_all_or_nothing() {
    let mut buffer = StagingBuffer::new(2, 5).unwrap();
    assert_eq!(buffer.stage(&ramp(0, 4)), Ok(()));
    assert_eq!(buffer.stage(&ramp(4, 2)), Err(StagingError::Overflow));
    assert_eq!(buffer.pending(), 4);
    assert_eq!(buffer.stage(&ramp(4, 1)), Ok(()));
    assert_eq!(bits(&buffer.release().unwrap()), vec![0, 1]);
    assert_eq!(bits(&buffer.release().unwrap()), vec![2, 3]);
    assert_eq!(buffer.pending(), 1);
}

#[test]
fn arena_wraps_around() {
    let mut buffer = StagingBuffer::new(3, 4).unwrap();
    let mut next: u32 = 0;
    let mut seen: Vec<u32> = Vec::new();
    for _ in 0..25 {
        assert_eq!(buffer.stage(&ramp(next, 3)), Ok(()));
        next += 3;
        seen.extend(bits(&buffer.release().unwrap()));
        assert_eq!(buffer.pending(), 0);
    }
    assert_eq!(seen, (0..75).collect::<Vec<u32>>());
}

#[test]
fn feed_emits_only_fixed_chunks_and_carries_the_residue() {
    let mut buffer = StagingBuffer::new(4, 4).unwrap();
    let lengths = [3usize, 5, 1, 7, 0, 4];
    let residues = [3usize, 0, 1, 0, 0, 0];
    let emitted = [0usize, 2, 0, 2, 0, 1];
    let mut next: u32 = 0;
    let mut stream: Vec<u32> = Vec::new();
    for step in 0..lengths.len() {
        let chunks = buffer.feed(&ramp(next, lengths[step]));
        next += lengths[step] as u32;
        assert_eq!(chunks.len(), emitted[step]);
        for chunk in &chunks {
            assert_eq!(chunk.len(), 4);
            stream.extend(bits(chunk));
        }
        assert_eq!(buffer.pending(), residues[step]);
    }
    assert_eq!(stream, (0..20).collect::<Vec<u32>>());
}

#[test]
fn feed_takes_a_batch_longer_than_the_arena() {
    let mut buffer = StagingBuffer::new(512, 512).unwrap();
    let chunks = buffer.feed(&ramp(0, 1764));
    assert_eq!(chunks.len(), 3);
    assert_eq!(bits(&chunks[0]), (0..512).collect::<Vec<u32>>());
    assert_eq!(bits(&chunks[1]), (512..1024).collect::<Vec<u32>>());
    assert_eq!(bits(&chunks[2]), (1024..1536).collect::<Vec<u32>>());
    assert_eq!(buffer.pending(), 1764 - 1536);
    let chunks = buffer.feed(&ramp(1764, 284));
    assert_eq!(chunks.len(), 1);
    assert_eq!(bits(&chunks[0]), (1536..2048).collect::<Vec<u32>>());
    assert_eq!(buffer.pending(), 0);
}

#[test]
fn feed_releases_what_was_staged_before() {
    let mut buffer = StagingBuffer::new(2, 6).unwrap();
    assert_eq!(buffer.stage(&ramp(0, 5)), Ok(()));
    let chunks = buffer.feed(&ramp(5, 2));
    assert_eq!(chunks.len(), 3);
    assert_eq!(bits(&chunks[0]), vec![0, 1]);
    assert_eq!(bits(&chunks[1]), vec![2, 3]);
    assert_eq!(bits(&chunks[2]), vec![4, 5]);
    assert_eq!(buffer.pending(), 1);
}

#[test]
fn chunking_does_not_depend_on_the_batching() {
    let total = 60usize;
    let all = ramp(0, total);
    for chunk in 1..8usize {
        let mut whole = StagingBuffer::new(chunk, chunk).unwrap();
        let expected: Vec<Vec<u32>> = whole.feed(&all).iter().map(|c| bits(c)).collect();
        for cut in 1..7usize {
            let mut buffer = StagingBuffer::new(chunk, chunk).unwrap();
            let mut got: Vec<Vec<u32>> = Vec::new();
            let mut fed = 0usize;
            for batch in all.chunks(cut) {
                got.extend(buffer.feed(batch).iter().map(|c| bits(c)));
                fed += batch.len();
                assert_eq!(buffer.pending(), fed % chunk);
            }
            assert_eq!(got, expected);
            assert_eq!(buffer.pending(), total % chunk);
        }
    }
}
