use screamer::ambient::{
    clean_canonical_segments, merge_segment, segments_to_transcript, stitch_text, AudioLane,
    CanonicalSegment, SpeakerLabel, StructuredNotes,
};

#[test]
fn stitch_removes_word_overlap() {
    let stitched = stitch_text(
        "we should ship this by friday",
        "ship this by friday with docs",
    );
    assert_eq!(stitched, "with docs");
}

#[test]
fn stitch_compacts_repeated_phrases_and_repairs_spacing() {
    let stitched = stitch_text(
        "I'm on call but I'm taking the 20th PTO.I'm not going to be working and I probably won't even take my work computer with me.",
        "I'm not going to be working and I probably won't even take my work computer with me. Can I swap an on call with someone?",
    );
    assert_eq!(stitched, "Can I swap an on call with someone?");
}

#[test]
fn merge_segment_extends_matching_turn() {
    let mut segments = vec![CanonicalSegment {
        id: 1,
        lane: AudioLane::Microphone,
        speaker: SpeakerLabel::You,
        start_ms: 0,
        end_ms: 500,
        text: "hello".to_string(),
    }];

    let merged = merge_segment(
        &mut segments,
        CanonicalSegment {
            id: 2,
            lane: AudioLane::Microphone,
            speaker: SpeakerLabel::You,
            start_ms: 700,
            end_ms: 1_000,
            text: "world".to_string(),
        },
        false,
    )
    .unwrap();

    assert_eq!(segments.len(), 1);
    assert_eq!(merged.text, "hello world");
}

#[test]
fn force_new_prevents_merge() {
    let mut segments = vec![CanonicalSegment {
        id: 1,
        lane: AudioLane::Microphone,
        speaker: SpeakerLabel::You,
        start_ms: 0,
        end_ms: 500,
        text: "hello".to_string(),
    }];

    merge_segment(
        &mut segments,
        CanonicalSegment {
            id: 2,
            lane: AudioLane::Microphone,
            speaker: SpeakerLabel::You,
            start_ms: 600,
            end_ms: 1_000,
            text: "world".to_string(),
        },
        true,
    )
    .unwrap();

    assert_eq!(segments.len(), 2);
    assert_eq!(segments[0].text, "hello");
    assert_eq!(segments[1].text, "world");
}

#[test]
fn clean_canonical_segments_compacts_repetition_heavy_transcript() {
    let cleaned = clean_canonical_segments(&[
        CanonicalSegment {
            id: 1,
            lane: AudioLane::Microphone,
            speaker: SpeakerLabel::S1,
            start_ms: 0,
            end_ms: 500,
            text: "Not next week with the following week.I also have a favor to ask.Not next week with the following week.on call but I'm taking the 28th".to_string(),
        },
        CanonicalSegment {
            id: 2,
            lane: AudioLane::Microphone,
            speaker: SpeakerLabel::S1,
            start_ms: 500,
            end_ms: 1_000,
            text: "I'm on call, but I'm taking the 20th PTO. I'm on call, but I'm taking the 20th PTO. I'm not going to be working and I probably won't even take my work computer with me.".to_string(),
        },
    ]);

    let transcript = segments_to_transcript(&cleaned);
    assert!(transcript.contains("I also have a favor to ask."));
    assert_eq!(
        transcript
            .matches("Not next week with the following week")
            .count(),
        1
    );
    assert_eq!(
        transcript
            .matches("I'm on call, but I'm taking the 20th PTO")
            .count(),
        1
    );
}

#[test]
fn raw_notes_markdown_omits_transcript_section() {
    let notes = StructuredNotes {
        raw_notes: Some("## Shipping\n- Calendar invite flow is ready.".to_string()),
        transcript: "Person A: calendar invite flow".to_string(),
        ..Default::default()
    };

    assert_eq!(
        notes.to_markdown(),
        "# Shipping\n\n- Calendar invite flow is ready."
    );
}

#[test]
fn raw_notes_markdown_gets_a_final_polish_pass() {
    let notes = StructuredNotes {
        raw_notes: Some(
            "## Drinks Inventory Review\n- Cider: remove\n- IPA: keep\n\n## Next Steps\n- Suvamsh: pull out the cider from the selection".to_string(),
        ),
        transcript: "Person A: calendar invite flow".to_string(),
        ..Default::default()
    };

    assert_eq!(
        notes.to_markdown(),
        "# Drinks Inventory Review\n\n- **Cider:** remove\n- **IPA:** keep\n\n# Next Steps\n\n- **Suvamsh:** pull out the cider from the selection"
    );
}

#[test]
fn structured_notes_markdown_uses_prominent_titled_bullets() {
    let notes = StructuredNotes {
        summary: "The release stays on track for next week.".to_string(),
        key_points: vec![
            "Owner: Maya".to_string(),
            "Risk: timezone confusion in reminders".to_string(),
        ],
        decisions: vec!["Ship if QA passes by Thursday.".to_string()],
        action_items: vec!["Maya: pair on the blocker tomorrow.".to_string()],
        open_questions: vec!["None".to_string()],
        transcript: String::new(),
        raw_notes: None,
    };

    assert_eq!(
        notes.to_markdown(),
        "# Summary\n\n- The release stays on track for next week.\n\n# Key Points\n\n- **Owner:** Maya\n- **Risk:** timezone confusion in reminders\n\n# Decisions\n\n- Ship if QA passes by Thursday.\n\n# Action Items\n\n- **Maya:** pair on the blocker tomorrow.\n\n# Open Questions\n\n- None"
    );
}
