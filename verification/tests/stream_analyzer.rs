use std::sync::Arc;

use rt_audio_effect::audio::StreamParameters;
use rt_audio_effect::audio_analyzer::StreamAnalyzer;

fn analyzer() -> StreamAnalyzer<f32, f32> {
    // 8 samples per second, a spectrum of 4 samples every 250 ms, over 1 s
    StreamAnalyzer::new(
        250_000_000,
        1_000_000_000,
        4,
        2,
        4,
        8,
        Arc::new(StreamParameters { sample_rate: 8, channels: 1 }),
        0.0,
        0.0,
    )
}

#[test]
fn new_keeps_the_given_parameters() {
    let sa: StreamAnalyzer<f32, f32> = StreamAnalyzer::new(
        10_000_000,
        1_000_000_000,
        4800,
        480,
        100,
        48000,
        Arc::new(StreamParameters { sample_rate: 48000, channels: 2 }),
        0.0,
        0.0,
    );
    let p = sa.get_analyzer_parameters();
    assert_eq!(p.refresh_time_in_samples, 480);
    assert_eq!(p.length_of_history, 100);
    assert_eq!(p.spectrum_width, 4800);
    assert_eq!(p.sample_rate, 48000);
    assert_eq!(p.refresh_time, 10_000_000);
    assert_eq!(p.spectrogram_duration, 1_000_000_000);
    assert_eq!(sa.get_audio_buffer().get_capacity(), 48000);
    assert_eq!(sa.get_latest_spectrum(), vec![vec![0.0; 2400], vec![0.0; 2400]]);
    assert!(sa.is_alive());
}

#[test]
fn windows_come_every_refresh_step() {
    let mut sa = analyzer();
    assert_eq!(sa.get_analyzer_parameters().refresh_time_in_samples, 2);
    assert_eq!(sa.next_windows(), None);
    sa.store_samples(vec![1.0, 2.0, 3.0, 4.0, 5.0]);
    assert!(sa.next_window_fits());
    let all = sa.drain_windows();
    assert_eq!(
        all,
        vec![vec![vec![0.0, 0.0, 1.0, 2.0]], vec![vec![1.0, 2.0, 3.0, 4.0]]]
    );
    assert_eq!(sa.get_audio_buffer().get_new_samples_count(), 1);
    assert_eq!(sa.next_windows(), None);
}

#[test]
fn a_full_backlog_does_not_fit_a_window() {
    let mut sa = analyzer();
    sa.store_samples(vec![1.0; 8]);
    assert!(!sa.next_window_fits());
}

#[test]
fn pushed_spectrums_become_the_latest() {
    let mut sa = analyzer();
    sa.push_spectrums(vec![vec![0.5, 0.25]]);
    assert_eq!(sa.get_latest_spectrum(), vec![vec![0.5, 0.25]]);
    let (series, dims) = sa.get_spectrogram_for_channel(0);
    assert_eq!(dims, (2, 4));
    assert_eq!(series.get_last(), &[0.5, 0.25]);
}

#[test]
fn kill_stops_the_analyzer() {
    let mut sa = analyzer();
    sa.kill();
    assert!(!sa.is_alive());
}

#[test]
fn no_window_due_fits_whatever_the_buffer() {
    // a buffer of 2 samples cannot hold a window of 4, but none is due
    let mut sa: StreamAnalyzer<f32, f32> = StreamAnalyzer::new(
        250_000_000,
        1_000_000_000,
        4,
        2,
        4,
        2,
        Arc::new(StreamParameters { sample_rate: 8, channels: 1 }),
        0.0,
        0.0,
    );
    assert!(sa.next_window_fits());
    assert!(sa.drain_windows().is_empty());
    sa.store_samples(vec![1.0]);
    assert!(sa.next_window_fits());
    sa.store_samples(vec![2.0]);
    assert!(!sa.next_window_fits());
}
