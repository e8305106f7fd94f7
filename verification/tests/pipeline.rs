use screamer::ambient::{AmbientSessionConfig, AudioLane};
use screamer::pipeline::{
    chunk_schedule, next_chunk_window, samples_to_ms, transcript_segments_from_decode,
    DecodedSegment, MIN_CHUNK_PROCESS_SAMPLES,
};
use screamer::session::{activity_bounds, recent_speech_window_start, LivePreviewState, LivePreviewStep};

#[test]
fn chunks_start_once_two_seconds_are_new() {
    let config = AmbientSessionConfig::default();
    let (chunk_len, step) = chunk_schedule(&config);
    assert_eq!((chunk_len, step), (128_000, 112_000));
    assert_eq!(next_chunk_window(0, MIN_CHUNK_PROCESS_SAMPLES - 1, chunk_len, step), None);
    assert_eq!(next_chunk_window(0, 50_000, chunk_len, step), Some((0, 50_000)));
    assert_eq!(next_chunk_window(50_000, 300_000, chunk_len, step), Some((34_000, 162_000)));
    assert_eq!(next_chunk_window(300_000, 10, chunk_len, step), None);
}

#[test]
fn sample_offsets_in_milliseconds() {
    assert_eq!(samples_to_ms(16_000), 1_000);
    assert_eq!(samples_to_ms(15), 0);
    assert_eq!(samples_to_ms(24_000), 1_500);
}

#[test]
fn decoded_text_without_segments_becomes_one_segment() {
    let none: Vec<DecodedSegment> = Vec::new();
    let segments = transcript_segments_from_decode(AudioLane::Microphone, 8_000, &none, "  hi there ");
    assert_eq!(segments.len(), 1);
    assert_eq!((segments[0].start_ms, segments[0].end_ms), (0, 500));
    assert_eq!(segments[0].text, "hi there");
    assert!(transcript_segments_from_decode(AudioLane::Microphone, 8_000, &none, "   ").is_empty());
    let tiny = transcript_segments_from_decode(AudioLane::SystemOutput, 5, &none, "x");
    assert_eq!(tiny[0].end_ms, 1);
    let decoded = vec![DecodedSegment { start_ms: 10, end_ms: 20, speaker_turn_next: true, text: " a".to_string() }];
    let segments = transcript_segments_from_decode(AudioLane::Microphone, 8_000, &decoded, "ignored");
    assert_eq!(segments.len(), 1);
    assert_eq!(segments[0].text, " a");
    assert!(segments[0].speaker_turn_next);
}

#[test]
fn speech_spans_come_from_loud_frames() {
    let frames = vec![false, true, false, true, true];
    assert_eq!(activity_bounds(&frames, 1_500, 3), Some((320, 1_500)));
    assert_eq!(activity_bounds(&frames, 1_600, 4), None);
    assert_eq!(activity_bounds(&vec![false, false], 640, 0), Some((0, 0)));
    assert_eq!(activity_bounds(&vec![true, true], 641, 2), Some((0, 640)));
}

#[test]
fn the_live_preview_waits_for_new_audio() {
    let mut state = LivePreviewState::new();
    assert_eq!(state.next_step(9_599, true), LivePreviewStep::Skip);
    assert_eq!(state.next_step(9_600, false), LivePreviewStep::Clear);
    assert_eq!(
        state.next_step(200_000, true),
        LivePreviewStep::Transcribe { window_start: 8_000, observed_samples_len: 200_000 }
    );
    let _ = state.register_transcription(10_000, "hello");
    assert_eq!(state.next_step(12_399, true), LivePreviewStep::Skip);
    assert_eq!(
        state.next_step(12_400, true),
        LivePreviewStep::Transcribe { window_start: 0, observed_samples_len: 12_400 }
    );
    assert_eq!(recent_speech_window_start(20_000), 4_000);
    assert_eq!(recent_speech_window_start(100), 0);
}
