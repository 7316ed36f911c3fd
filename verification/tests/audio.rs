use fractal_synaesthesia::audio::analyzer::{
    low_granularity_frames, mid_granularity_windows, pitch_frames, FeatureType, MidWindow, SongType,
    SongTypes,
};
use fractal_synaesthesia::audio::song_tracker::{frame_for_elapsed, SongTracker};

#[test]
fn frame_for_one_second_at_44100_hop_256() {
    // 1 s * 44100 Hz / 256 = 172.27 -> frame 172
    assert_eq!(frame_for_elapsed(1_000_000_000, 44100, 256), 172);
}

#[test]
fn frame_for_exact_hop_boundary() {
    // 256 samples at 256 Hz take exactly one second: frame 1
    assert_eq!(frame_for_elapsed(1_000_000_000, 256, 256), 1);
    assert_eq!(frame_for_elapsed(999_999_999, 256, 256), 0);
}

#[test]
fn frame_for_zero_elapsed_is_zero() {
    assert_eq!(frame_for_elapsed(0, 44100, 256), 0);
    assert_eq!(frame_for_elapsed(0, 44100, 0), 0);
}

#[test]
fn frame_for_zero_hop_saturates() {
    assert_eq!(frame_for_elapsed(5, 44100, 0), usize::MAX);
}

#[test]
fn frame_for_zero_rate_is_zero() {
    assert_eq!(frame_for_elapsed(123_456_789_000, 0, 256), 0);
}

#[test]
fn frame_for_huge_elapsed_saturates() {
    assert_eq!(frame_for_elapsed(u128::MAX, u32::MAX, 1), usize::MAX);
}

#[test]
fn frame_never_goes_back_in_time() {
    let mut last = 0;
    for ms in 0..2000u128 {
        let f = frame_for_elapsed(ms * 1_000_000, 48000, 512);
        assert!(f >= last);
        last = f;
    }
    assert_eq!(last, 1999 * 48000 / 512 / 1000);
}

#[test]
fn tracker_starts_and_stops() {
    let mut tracker = SongTracker::new(44100, 256);
    assert!(!tracker.is_playing());
    assert_eq!(tracker.target_frame(), None);
    assert_eq!(tracker.playback_nanos(), None);
    tracker.start();
    assert!(tracker.is_playing());
    assert!(tracker.target_frame().is_some());
    assert!(tracker.playback_nanos().is_some());
    tracker.stop();
    assert!(!tracker.is_playing());
    assert_eq!(tracker.target_frame(), None);
}

#[test]
fn song_type_presets() {
    let pop = SongType::pop();
    assert_eq!((pop.hop_size, pop.buf_size), (256, 512));
    let techno = SongType::techno();
    assert_eq!((techno.hop_size, techno.buf_size), (128, 256));
    let techno2 = SongType::techno2();
    assert_eq!((techno2.hop_size, techno2.buf_size), (64, 128));
    let custom = SongType::custom(10, 20, aubio_rs::OnsetMode::Hfc);
    assert_eq!((custom.hop_size, custom.buf_size), (10, 20));
    assert_eq!(custom.tempo_method, aubio_rs::OnsetMode::Hfc);
}

#[test]
fn song_types_give_settings_and_labels() {
    let t = SongTypes::Techno.get_song_type();
    assert_eq!((t.hop_size, t.buf_size), (128, 256));
    let c = SongTypes::Custom(1, 2, aubio_rs::OnsetMode::Energy).get_song_type();
    assert_eq!((c.hop_size, c.buf_size, c.tempo_method), (1, 2, aubio_rs::OnsetMode::Energy));
    assert_eq!(SongTypes::Pop.get_text(), "Pop");
    assert_eq!(SongTypes::Techno.get_text(), "Techno");
    assert_eq!(SongTypes::Custom(1, 2, aubio_rs::OnsetMode::Energy).get_text(), "Custom (advanced)");
    let variants = SongTypes::get_variants();
    assert_eq!(variants.len(), 3);
    match variants[2] {
        SongTypes::Custom(h, b, m) => {
            assert_eq!((h, b), (256, 512));
            assert_eq!(m, aubio_rs::OnsetMode::Complex);
        }
        _ => panic!("third variant is custom"),
    }
}

#[test]
fn feature_types_compare() {
    assert_eq!(FeatureType::Pitch, FeatureType::Pitch);
    assert_ne!(FeatureType::Pitch, FeatureType::Volume);
}

#[test]
fn low_frames_fit_in_samples() {
    // frames start at 0, 256, ..., each 512 long, within 2048 samples
    assert_eq!(low_granularity_frames(2048, 256, 512), 7);
    assert_eq!(low_granularity_frames(511, 256, 512), 0);
    assert_eq!(low_granularity_frames(512, 256, 512), 1);
    // a buffer shorter than the hop reads nothing
    assert_eq!(low_granularity_frames(4096, 256, 128), 0);
    // a zero hop is only allowed when no frame fits
    assert_eq!(low_granularity_frames(10, 0, 11), 0);
}

#[test]
fn pitch_frames_skip_partial_chunk() {
    assert_eq!(pitch_frames(1000, 256), 3);
    assert_eq!(pitch_frames(1024, 256), 4);
    assert_eq!(pitch_frames(0, 256), 0);
}

#[test]
fn mid_windows_half_overlap() {
    // 10 Hz: windows of 30 samples starting every 15
    let w = mid_granularity_windows(50, 10, 5);
    assert_eq!(
        w,
        vec![
            MidWindow { start: 0, end: 30, frame: 3 },
            MidWindow { start: 15, end: 45, frame: 6 },
            MidWindow { start: 30, end: 50, frame: 9 },
            MidWindow { start: 45, end: 50, frame: 12 },
        ]
    );
    assert!(mid_granularity_windows(0, 0, 0).is_empty());
}

#[test]
fn mid_windows_cover_every_sample() {
    let len = 1000;
    let w = mid_granularity_windows(len, 7, 3);
    for s in 0..len {
        assert!(w.iter().any(|win| win.start <= s && s < win.end));
    }
}
