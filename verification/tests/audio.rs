use riff::audio::{level, level_due, Capture, Level, Limits, SILENCE_PEAK, VOICE_PEAK};

fn limits() -> Limits {
    Limits { silence_needed: 45, min_len: 60, max_len: 1800, margin: 15, min_voiced: 35 }
}

const SUSTAINED: usize = 9;

fn block(len: usize, mark: u32) -> Vec<u32> {
    vec![mark; len]
}

#[test]
fn peaks_are_the_bits_of_floats() {
    assert_eq!(f32::from_bits(SILENCE_PEAK), 0.022);
    assert_eq!(f32::from_bits(VOICE_PEAK), 0.045);
}

#[test]
fn levels_follow_the_peak() {
    for (peak, expected) in [
        (0.0f32, Level::Silence),
        (0.0219, Level::Silence),
        (0.022, Level::Noise),
        (0.0449, Level::Noise),
        (0.045, Level::Voice),
        (1.0, Level::Voice),
        (f32::INFINITY, Level::Voice),
    ] {
        assert_eq!(level(peak.to_bits()), expected, "{}", peak);
    }
}

#[test]
fn levels_are_reported_now_and_then() {
    assert!(!level_due(0));
    assert!(!level_due(39));
    assert!(level_due(40));
    assert!(level_due(41));
}

#[test]
fn a_voice_needs_samples() {
    let mut capture: Capture<u32> = Capture::new();
    capture.absorb(block(8, 1), Level::Voice, SUSTAINED);
    capture.absorb(block(0, 1), Level::Voice, SUSTAINED);
    assert!(capture.flush_pending(0).is_empty());
    capture.absorb(block(9, 1), Level::Voice, SUSTAINED);
    assert_eq!(capture.flush_pending(1).len(), 9);
}

#[test]
fn clicks_never_add_up_to_a_voice() {
    let mut capture: Capture<u32> = Capture::new();
    for _ in 0..100 {
        capture.absorb(block(8, 1), Level::Voice, SUSTAINED);
        capture.absorb(block(1, 0), Level::Noise, SUSTAINED);
    }
    capture.absorb(block(50, 0), Level::Silence, SUSTAINED);
    assert!(capture.take_ready_segment(&limits()).is_empty());
    assert!(capture.flush_pending(0).is_empty());
}

#[test]
fn a_sentence_is_cut_at_a_pause_and_keeps_a_margin() {
    let mut capture = Capture::new();
    capture.absorb(block(100, 7), Level::Voice, SUSTAINED);
    capture.absorb(block(44, 0), Level::Silence, SUSTAINED);
    assert!(capture.take_ready_segment(&limits()).is_empty());
    capture.absorb(block(1, 0), Level::Silence, SUSTAINED);
    let segment = capture.take_ready_segment(&limits());
    assert_eq!(segment.len(), 115);
    assert_eq!(&segment[..100], &block(100, 7)[..]);
    assert_eq!(&segment[100..], &block(15, 0)[..]);
    // The buffer is empty afterwards.
    assert!(capture.flush_pending(0).is_empty());
}

#[test]
fn a_long_sentence_is_cut_without_a_pause() {
    let mut capture = Capture::new();
    capture.absorb(block(1799, 7), Level::Voice, SUSTAINED);
    assert!(capture.take_ready_segment(&limits()).is_empty());
    capture.absorb(block(1, 8), Level::Noise, SUSTAINED);
    assert_eq!(capture.take_ready_segment(&limits()).len(), 1800);
}

#[test]
fn a_pause_shorter_than_the_margin_is_kept_whole() {
    let wide = Limits { silence_needed: 10, margin: 20, ..limits() };
    let mut capture = Capture::new();
    capture.absorb(block(100, 7), Level::Voice, SUSTAINED);
    capture.absorb(block(12, 0), Level::Silence, SUSTAINED);
    assert_eq!(capture.take_ready_segment(&wide).len(), 112);
}

#[test]
fn a_buffer_with_little_speech_is_thrown_away() {
    let mut capture = Capture::new();
    capture.absorb(block(30, 0), Level::Noise, SUSTAINED);
    capture.absorb(block(34, 7), Level::Voice, SUSTAINED);
    capture.absorb(block(45, 0), Level::Silence, SUSTAINED);
    assert!(capture.take_ready_segment(&limits()).is_empty());
    capture.absorb(block(100, 7), Level::Voice, SUSTAINED);
    assert_eq!(capture.flush_pending(35).len(), 100);
}

#[test]
fn a_short_segment_is_thrown_away() {
    let mut capture = Capture::new();
    capture.absorb(block(40, 7), Level::Voice, SUSTAINED);
    capture.absorb(block(45, 0), Level::Silence, SUSTAINED);
    assert!(capture.take_ready_segment(&limits()).is_empty());
    assert!(capture.flush_pending(0).is_empty());
}

#[test]
fn flushing_needs_no_pause_but_enough_speech() {
    let mut capture = Capture::new();
    capture.absorb(block(35, 7), Level::Voice, SUSTAINED);
    assert_eq!(capture.flush_pending(35), block(35, 7));
    capture.absorb(block(34, 7), Level::Voice, SUSTAINED);
    assert!(capture.flush_pending(35).is_empty());
    assert!(capture.flush_pending(0).is_empty());
}

#[test]
fn sound_before_it_lasts_does_not_count() {
    let mut capture = Capture::new();
    capture.absorb(block(5, 7), Level::Voice, SUSTAINED);
    capture.absorb(block(5, 7), Level::Voice, SUSTAINED);
    // Only the second block counts as speech.
    assert!(capture.flush_pending(6).is_empty());
    capture.absorb(block(5, 7), Level::Voice, SUSTAINED);
    capture.absorb(block(5, 7), Level::Voice, SUSTAINED);
    assert_eq!(capture.flush_pending(5).len(), 10);
}

#[test]
fn resetting_forgets_everything() {
    let mut capture = Capture::new();
    capture.absorb(block(100, 7), Level::Voice, SUSTAINED);
    capture.reset_segment();
    assert!(capture.flush_pending(0).is_empty());
}
