use vibe_audio::fetcher::SampleBuffer;

#[test]
fn push_more_than_capacity() {
    // buffer should have length of `1` * `128`
    let mut sample_buffer = SampleBuffer::new(1, 0f32);
    sample_buffer.push_before(&[1f32; 129]);

    assert_eq!(sample_buffer.buffer().len(), 128);
    assert!(sample_buffer.buffer().iter().all(|&value| value == 1f32));
}

#[test]
fn new_values_are_moved_to_the_beginning() {
    let mut sample_buffer = SampleBuffer::new(1, 0f32);
    sample_buffer.push_before(&[69f32]);

    assert_eq!(sample_buffer.buffer().len(), 128);
    assert_eq!(sample_buffer.buffer()[0], 69f32);
    assert!(sample_buffer.buffer()[1..].iter().all(|&value| value == 0f32));
}

#[test]
fn no_values_pushed() {
    let mut sample_buffer = SampleBuffer::new(1, 0f32);
    sample_buffer.push_before(&[]);

    assert_eq!(sample_buffer.buffer().len(), 128);
    assert!(sample_buffer.buffer().iter().all(|&value| value == 0f32));
}

#[test]
fn capacity_follows_the_sample_rate() {
    for (sample_rate, capacity) in [
        (0u32, 128usize),
        (8_124, 128),
        (8_125, 256),
        (16_250, 256),
        (16_251, 512),
        (32_500, 512),
        (44_100, 1024),
        (75_000, 1024),
        (75_001, 2048),
        (150_000, 2048),
        (300_000, 4096),
        (300_001, 8192),
        (u32::MAX, 8192),
    ] {
        let buffer = SampleBuffer::new(sample_rate, 0i16);
        assert_eq!(buffer.capacity(), capacity);
        assert_eq!(buffer.sample_rate(), sample_rate);
    }
}

#[test]
fn older_samples_move_right_and_the_oldest_leave() {
    let mut buffer = SampleBuffer::new(1, 0u32);
    let first: Vec<u32> = (1..=100).collect();
    buffer.push_before(&first);
    let second: Vec<u32> = (1001..=1050).collect();
    buffer.push_before(&second);

    let mut expected: Vec<u32> = second.clone();
    expected.extend(first.iter().take(78));
    assert_eq!(buffer.buffer(), &expected);

    // more than fits: the first of them are kept
    let many: Vec<u32> = (5000..5200).collect();
    buffer.push_before(&many);
    assert_eq!(buffer.buffer(), &many[..128].to_vec());
}

#[test]
fn deinterleave_picks_every_sample_of_a_channel() {
    let mut buffer = SampleBuffer::new(1, 0u32);
    let samples: Vec<u32> = (0..128).collect();
    buffer.push_before(&samples);
    let left = buffer.deinterleave(2, 0);
    let right = buffer.deinterleave(2, 1);
    assert_eq!(left, (0..128).step_by(2).collect::<Vec<u32>>());
    assert_eq!(right, (1..128).step_by(2).collect::<Vec<u32>>());
    // three channels: the last two samples form no frame
    let third = buffer.deinterleave(3, 2);
    assert_eq!(third.len(), 42);
    assert_eq!(third[41], 125);
}
