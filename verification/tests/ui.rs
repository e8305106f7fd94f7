use screamer::ambient::{AmbientSessionState, AudioLane, CanonicalSegment, SpeakerLabel, SummaryTemplate};
use screamer::store::{SessionDetail, SessionSummary};
use screamer::ui::{
    ambient_state_label, append_warning, compact_sidebar_text, dictation_hint,
    display_session_title, format_elapsed, format_relative_time, home_banner, menu_model_title,
    processing_label, sanitize_log_header_value, saturating_elapsed, segment_content_signature,
    session_controls, session_inputs_line, session_meta_line, session_preview_line,
    slugify_token, snapshot_from_detail, status_label, summary_template_index,
    updated_existing_tail, session_signatures, sidebar_needs_redraw, sidebar_query,
};

fn summary(state: AmbientSessionState, updated_at_ms: i64, preview: &str) -> SessionSummary {
    SessionSummary {
        id: 1,
        title: "t".to_string(),
        state,
        started_at_ms: 0,
        updated_at_ms,
        live_notes_preview: preview.to_string(),
    }
}

fn segment(id: u64, speaker: SpeakerLabel, text: &str) -> CanonicalSegment {
    CanonicalSegment { id, lane: AudioLane::Microphone, speaker, start_ms: 0, end_ms: 1, text: text.to_string() }
}

#[test]
fn sidebar_text_is_collapsed_and_cut() {
    assert_eq!(compact_sidebar_text("  hello   big\n world ", 9), "hello big");
    assert_eq!(compact_sidebar_text("hello world", 6), "hello");
    assert_eq!(compact_sidebar_text("   ", 5), "");
    assert_eq!(compact_sidebar_text("héllo", 2), "hé");
}

#[test]
fn session_titles_drop_speaker_prefixes() {
    assert_eq!(display_session_title("You:  Plan   the trip"), "Plan the trip");
    assert_eq!(display_session_title("S2: x"), "x");
    assert_eq!(display_session_title("S3: x"), "S3: x");
    assert_eq!(display_session_title("  "), "Ambient Session");
    assert_eq!(display_session_title("S1:"), "Ambient Session");
}

#[test]
fn previews_and_meta_lines() {
    assert_eq!(session_preview_line(&summary(AmbientSessionState::Completed, 0, "  ")), "No notes yet");
    assert_eq!(session_preview_line(&summary(AmbientSessionState::Completed, 0, "NO NOTES YET")), "No notes yet");
    assert_eq!(session_preview_line(&summary(AmbientSessionState::Completed, 0, "a  b")), "a b");
    assert_eq!(
        session_meta_line(&summary(AmbientSessionState::Processing, 0, ""), 99_999_999),
        "◉ Processing\u{2026}"
    );
    assert_eq!(
        session_meta_line(&summary(AmbientSessionState::Completed, 0, ""), 120_000),
        "Completed · 2m ago"
    );
}

#[test]
fn relative_times() {
    assert_eq!(format_relative_time(10_000, 5_000), "Just now");
    assert_eq!(format_relative_time(0, 59_999), "Just now");
    assert_eq!(format_relative_time(0, 60_000), "1m ago");
    assert_eq!(format_relative_time(0, 3_600_000), "1h ago");
    assert_eq!(format_relative_time(0, 86_399_999), "23h ago");
    assert_eq!(format_relative_time(0, 3 * 86_400_000), "3d ago");
}

#[test]
fn elapsed_times_and_labels() {
    assert_eq!(format_elapsed(0), "00:00");
    assert_eq!(format_elapsed(61_999), "01:01");
    assert_eq!(format_elapsed(6_000_000), "100:00");
    assert_eq!(status_label(AmbientSessionState::Failed), "Failed");
    assert_eq!(ambient_state_label(AmbientSessionState::Recording), "recording");
    assert_eq!(saturating_elapsed(5, 2), 0u64.wrapping_sub(3));
    assert_eq!(saturating_elapsed(2, 5), 3);
    assert_eq!(saturating_elapsed(i64::MIN, i64::MAX), i64::MAX as u64);
}

#[test]
fn warnings_accumulate_once() {
    assert_eq!(append_warning(None, "b"), "b");
    assert_eq!(append_warning(Some("  "), "b"), "b");
    assert_eq!(append_warning(Some(" a "), "b"), "a\nb");
    assert_eq!(append_warning(Some("xx b yy"), "b"), "xx b yy");
}

#[test]
fn only_a_changed_last_segment_is_an_updated_tail() {
    let previous = vec![segment(1, SpeakerLabel::S1, "a"), segment(2, SpeakerLabel::S2, "b")];
    let same = vec![segment(1, SpeakerLabel::S1, "a"), segment(2, SpeakerLabel::S2, "b"), segment(3, SpeakerLabel::S1, "c")];
    assert!(updated_existing_tail(&previous, &same).is_none());
    let changed = vec![segment(1, SpeakerLabel::S1, "a"), segment(2, SpeakerLabel::S2, "b c")];
    assert_eq!(updated_existing_tail(&previous, &changed).map(|s| s.text.clone()), Some("b c".to_string()));
    assert!(updated_existing_tail(&[], &changed).is_none());
    assert!(updated_existing_tail(&previous, &previous[..1]).is_none());
}

#[test]
fn snapshots_of_stored_sessions() {
    let detail = SessionDetail {
        id: 9,
        title: "t".to_string(),
        state: AmbientSessionState::Recording,
        started_at_ms: 1_000,
        ended_at_ms: None,
        live_notes: "n".to_string(),
        structured_notes: String::new(),
        transcript_markdown: String::new(),
        scratch_pad: String::new(),
        summary_template: SummaryTemplate::StandUp,
        segments: vec![],
    };
    let snapshot = snapshot_from_detail(detail, 4_500);
    assert_eq!(snapshot.elapsed_ms, 3_500);
    assert_eq!(snapshot.summary_backend_label, "Bundled Gemma 3 1B");
    assert_eq!(snapshot.summary_template, SummaryTemplate::StandUp);
    assert!(snapshot.warning.is_none());
}

#[test]
fn tokens_headers_and_signatures() {
    assert_eq!(slugify_token("gpt-4o mini"), "gpt_4o_mini");
    assert_eq!(sanitize_log_header_value(" a \n\n  b c \r\n"), "a b c");
    let segments = vec![segment(1, SpeakerLabel::You, "hé"), segment(12, SpeakerLabel::S2, "")];
    assert_eq!(segment_content_signature(&segments), "1:0:3;12:1:0;");
    assert_eq!(menu_model_title("base"), "Base");
    assert_eq!(menu_model_title("custom"), "custom");
}

#[test]
fn session_view_controls_follow_the_state() {
    let recording = session_controls(AmbientSessionState::Recording);
    assert!(recording.stop_visible && recording.template_popup_enabled && recording.scratch_pad_editable);
    assert!(!recording.reprocess_visible && !recording.processing_overlay_visible);
    let processing = session_controls(AmbientSessionState::Processing);
    assert!(processing.processing_overlay_visible && !processing.scratch_pad_editable && !processing.stop_visible);
    assert!(session_controls(AmbientSessionState::Failed).reprocess_visible);
    assert!(session_controls(AmbientSessionState::Completed).reprocess_visible);
    assert!(!session_controls(AmbientSessionState::Idle).reprocess_visible);
}

#[test]
fn session_view_texts() {
    assert_eq!(session_inputs_line(true, false, false), "Inputs: microphone");
    assert_eq!(session_inputs_line(false, true, false), "Inputs: off + system output (requested)");
    assert_eq!(session_inputs_line(true, true, true), "Inputs: microphone + system output");
    assert_eq!(processing_label(0), "Processing session");
    assert_eq!(processing_label(399), "Processing session");
    assert_eq!(processing_label(400), "Processing session.");
    assert_eq!(processing_label(1_200), "Processing session...");
    assert_eq!(processing_label(1_600), "Processing session");
    assert_eq!(summary_template_index(SummaryTemplate::General), 0);
    assert_eq!(summary_template_index(SummaryTemplate::StandUp), 3);
    assert_eq!(dictation_hint("Fn"), "Hold Fn to speak anywhere on your Mac.");
}

#[test]
fn the_home_banner() {
    let (text, button) = home_banner(None, true, "why");
    assert_eq!(text, "A fast local workspace for meetings, voice memos, and quick capture.");
    assert_eq!(button, "Start session");
    let (text, button) = home_banner(None, false, "why");
    assert_eq!(text, "why");
    assert_eq!(button, "Start session");
}

#[test]
fn the_session_list_is_read_again_when_the_search_changes_or_ages() {
    assert_eq!(sidebar_query("", "  ", 100), None);
    assert_eq!(sidebar_query("", "  ", 500), Some(String::new()));
    assert_eq!(sidebar_query("old", " new ", 0), Some("new".to_string()));
    assert_eq!(sidebar_query("new", " new ", 499), None);
}

#[test]
fn the_session_list_is_redrawn_when_a_session_changes() {
    let a = vec![summary(AmbientSessionState::Completed, 5, "x")];
    let mut b = vec![summary(AmbientSessionState::Completed, 5, "other preview")];
    let sa = session_signatures(&a);
    let sb = session_signatures(&b);
    assert!(!sidebar_needs_redraw(false, &sa, &sb));
    assert!(sidebar_needs_redraw(true, &sa, &sb));
    b[0].title = "renamed".to_string();
    assert!(sidebar_needs_redraw(false, &sa, &session_signatures(&b)));
    b[0].title = "t".to_string();
    b[0].updated_at_ms = 6;
    assert!(sidebar_needs_redraw(false, &sa, &session_signatures(&b)));
    assert!(sidebar_needs_redraw(false, &sa, &Vec::new()));
}
