use screamer::ambient::{AudioLane, CanonicalSegment, SpeakerLabel, TranscriptSegment};
use screamer::diarization::{diarize_turns, VoiceDiarizationEngine};

fn transcript(start_ms: u64, end_ms: u64, text: &str, turn_next: bool) -> TranscriptSegment {
    TranscriptSegment {
        lane: AudioLane::Microphone,
        start_ms,
        end_ms,
        speaker_turn_next: turn_next,
        text: text.to_string(),
    }
}

#[test]
fn turns_carry_the_previous_speaker_when_the_voice_is_unknown() {
    let previous = vec![CanonicalSegment {
        id: 1,
        lane: AudioLane::Microphone,
        speaker: SpeakerLabel::S3,
        start_ms: 0,
        end_ms: 10,
        text: "before".to_string(),
    }];
    let segments = vec![
        transcript(0, 500, "  hello   there ", true),
        transcript(500, 600, "   ", false),
        transcript(600, 600, "next", false),
        transcript(700, 900, "last", false),
    ];
    let identified = vec![None, Some(SpeakerLabel::S1), None, Some(SpeakerLabel::S2)];
    let turns = diarize_turns(10_000, &previous, &segments, &identified);
    assert_eq!(turns.len(), 3);
    assert_eq!(turns[0].speaker, SpeakerLabel::S3);
    assert_eq!(turns[0].text, "hello there");
    assert_eq!((turns[0].start_ms, turns[0].end_ms), (10_000, 10_500));
    assert!(!turns[0].force_new);
    assert_eq!(turns[1].speaker, SpeakerLabel::S3);
    assert_eq!((turns[1].start_ms, turns[1].end_ms), (10_600, 10_601));
    assert!(turns[1].force_new);
    assert_eq!(turns[2].speaker, SpeakerLabel::S2);
    assert!(!turns[2].force_new);
}

#[test]
fn the_first_speaker_starts_a_session_and_times_saturate() {
    let segments = vec![transcript(5, 10, "x", false)];
    let turns = diarize_turns(u64::MAX - 100, &[], &segments, &vec![None]);
    assert_eq!(turns[0].speaker, SpeakerLabel::S1);
    assert_eq!(turns[0].start_ms, u64::MAX - 95);
    assert!(diarize_turns(0, &[], &[], &vec![]).is_empty());
}

#[test]
fn voice_engine_reads_the_samples_of_a_segment() {
    assert_eq!(VoiceDiarizationEngine.label(), "voice_mfcc_v1");
    assert_eq!(VoiceDiarizationEngine::segment_audio(32_000, 16_000, 250, 1_000), (4_000, 16_000));
    assert_eq!(VoiceDiarizationEngine::segment_audio(8_000, 16_000, 250, 1_000), (4_000, 8_000));
    assert_eq!(VoiceDiarizationEngine::segment_audio(8_000, 16_000, 900, 1_000), (8_000, 8_000));
}
