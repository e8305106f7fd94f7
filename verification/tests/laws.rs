use screamer::ambient::{
    chunk_step_samples, merge_segment, AudioLane, CanonicalSegment, SpeakerLabel, SummaryTemplate,
};
use screamer::config::Config;
use screamer::session::format_live_transcript;
use screamer::speech::prepare_spoken_text;

#[test]
fn templates_read_back_from_their_stored_names() {
    for template in SummaryTemplate::all() {
        assert_eq!(SummaryTemplate::from_db(template.to_db()), *template);
    }
    assert_eq!(SummaryTemplate::from_db("whatever"), SummaryTemplate::General);
}

#[test]
fn the_next_speaker_has_the_next_index_until_the_last() {
    assert_eq!(SpeakerLabel::S1.next().index(), SpeakerLabel::S1.index() + 1);
    assert_eq!(SpeakerLabel::S5.next().index(), 5);
    assert_eq!(SpeakerLabel::S6.next(), SpeakerLabel::S6);
    assert_eq!(SpeakerLabel::You.next(), SpeakerLabel::S2);
}

#[test]
fn normalizing_settings_twice_changes_nothing_more() {
    let mut config = Config::default();
    config.model = "giant".to_string();
    config.hotkey = "caps".to_string();
    config.vision_hotkey = "".to_string();
    config.summary_ollama_model = "  ".to_string();
    let once = config.normalized();
    assert_eq!(once.model, "base");
    assert_eq!(once.hotkey, "left_control");
    let twice = once.clone().normalized();
    assert_eq!(twice.model, once.model);
    assert_eq!(twice.hotkey, once.hotkey);
    assert_eq!(twice.vision_hotkey, once.vision_hotkey);
    assert_eq!(twice.summary_ollama_model, once.summary_ollama_model);
}

#[test]
fn a_forced_new_segment_leaves_the_earlier_ones_alone() {
    let mut segments = vec![CanonicalSegment {
        id: 1,
        lane: AudioLane::Microphone,
        speaker: SpeakerLabel::S1,
        start_ms: 0,
        end_ms: 1_000,
        text: "We should".to_string(),
    }];
    let returned = merge_segment(
        &mut segments,
        CanonicalSegment {
            id: 2,
            lane: AudioLane::Microphone,
            speaker: SpeakerLabel::S1,
            start_ms: 1_000,
            end_ms: 2_000,
            text: "ship it.".to_string(),
        },
        true,
    );
    assert_eq!(segments.len(), 2);
    assert_eq!(segments[0].text, "We should");
    assert_eq!(returned.map(|s| s.id), Some(segments[1].id));
}

#[test]
fn live_transcripts_stay_short() {
    let long = "word ".repeat(200);
    assert!(format_live_transcript(&long).chars().count() <= 183);
}

#[test]
fn spoken_text_is_bounded() {
    let long = "a".repeat(5_000);
    assert!(prepare_spoken_text(&long).chars().count() <= 1_203);
}

#[test]
fn chunks_always_advance_by_at_least_a_second() {
    assert_eq!(chunk_step_samples(8, 1, 16_000), 7 * 16_000);
    assert_eq!(chunk_step_samples(1, 3, 16_000), 16_000);
}
