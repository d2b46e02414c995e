use std::sync::Arc;

use rt_audio_effect::audio::audio_buffer::AudioBuffer;
use rt_audio_effect::audio::StreamParameters;

fn stereo() -> Arc<StreamParameters> {
    Arc::new(StreamParameters { sample_rate: 48000, channels: 2 })
}

#[test]
fn new_buffer_is_silent_and_has_nothing_unread() {
    let buffer: AudioBuffer<f32> = AudioBuffer::new(stereo(), 4, 0.0);
    assert_eq!(buffer.get_new_samples_count(), 0);
    assert_eq!(buffer.get_capacity(), 4);
}

#[test]
fn store_deinterleaves_and_counts_whole_frames() {
    let mut buffer: AudioBuffer<i32> = AudioBuffer::new(stereo(), 4, 0);
    buffer.store(vec![1, -1, 2, -2, 3]);
    assert_eq!(buffer.get_new_samples_count(), 2);
    let read = buffer.read_new_samples(2, 4).unwrap();
    // channel 0 received 1, 2, 3 and channel 1 received -1, -2
    assert_eq!(read, vec![vec![0, 1, 2, 3], vec![0, 0, -1, -2]]);
    assert_eq!(buffer.get_new_samples_count(), 0);
}

#[test]
fn read_after_store_gives_back_the_stored_samples() {
    let mut buffer: AudioBuffer<f32> = AudioBuffer::new(stereo(), 8, 0.0);
    buffer.store(vec![0.5, -0.5, 0.25, -0.25, 0.125, -0.125]);
    let read = buffer.read_new_samples(3, 3).unwrap();
    assert_eq!(read, vec![vec![0.5, 0.25, 0.125], vec![-0.5, -0.25, -0.125]]);
}

#[test]
fn read_without_enough_new_samples_fails_and_changes_nothing() {
    let mut buffer: AudioBuffer<i32> = AudioBuffer::new(stereo(), 4, 0);
    buffer.store(vec![1, 1]);
    let res = buffer.read_new_samples(2, 2);
    assert_eq!(res, Err(String::from("Not enough new data")));
    assert_eq!(buffer.get_new_samples_count(), 1);
}

#[test]
fn consecutive_reads_advance_by_the_new_samples() {
    let mut buffer: AudioBuffer<i32> = AudioBuffer::new(
        Arc::new(StreamParameters { sample_rate: 8, channels: 1 }),
        6,
        0,
    );
    buffer.store(vec![1, 2, 3, 4]);
    let first = buffer.read_new_samples(2, 3).unwrap();
    let second = buffer.read_new_samples(2, 3).unwrap();
    assert_eq!(first, vec![vec![0, 1, 2]]);
    assert_eq!(second, vec![vec![2, 3, 4]]);
    assert_eq!(buffer.get_new_samples_count(), 0);
}

#[test]
fn overrun_caps_the_unread_count_at_the_capacity() {
    let mut buffer: AudioBuffer<i32> = AudioBuffer::new(
        Arc::new(StreamParameters { sample_rate: 8, channels: 1 }),
        3,
        0,
    );
    buffer.store(vec![1, 2, 3, 4, 5]);
    assert_eq!(buffer.get_new_samples_count(), 3);
    let read = buffer.read_new_samples(3, 3).unwrap();
    assert_eq!(read, vec![vec![3, 4, 5]]);
}
