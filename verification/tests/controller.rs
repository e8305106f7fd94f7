use screamer::ambient::{AmbientSessionState, SummaryTemplate};
use screamer::config::Config;
use screamer::controller::{
    edit_active_snapshot, SnapshotEdit,
    fallback_summary, final_session_state, initial_snapshot, notes_with_scratch,
    reprocess_session_check, start_session_plan, stop_session_check,
    system_audio_runtime_reason, system_audio_runtime_supported,
};
use screamer::store::SessionDetail;

fn detail(id: i64) -> SessionDetail {
    SessionDetail {
        id,
        title: "t".to_string(),
        state: AmbientSessionState::Completed,
        started_at_ms: 0,
        ended_at_ms: Some(10),
        live_notes: String::new(),
        structured_notes: String::new(),
        transcript_markdown: String::new(),
        scratch_pad: String::new(),
        summary_template: SummaryTemplate::General,
        segments: Vec::new(),
    }
}

#[test]
fn a_session_needs_an_input_and_no_running_session() {
    let config = Config::default();
    assert_eq!(
        start_session_plan(true, &config).err(),
        Some("An ambient session is already running.".to_string())
    );
    let mut off = Config::default();
    off.ambient_microphone = false;
    off.ambient_system_audio = false;
    assert_eq!(
        start_session_plan(false, &off).err(),
        Some("Enable microphone or system audio in Settings before starting notetaker.".to_string())
    );
}

#[test]
fn a_session_with_system_audio_warns_that_it_is_not_captured() {
    let mut config = Config::default();
    config.ambient_microphone = true;
    config.ambient_system_audio = true;
    let plan = start_session_plan(false, &config).ok().unwrap();
    assert!(plan.ambient_config.enable_microphone);
    assert!(plan.ambient_config.enable_system_audio);
    assert_eq!(plan.ambient_config.chunk_seconds, 8);
    assert_eq!(plan.summary_backend_label, "Bundled Gemma 3 1B");
    assert_eq!(plan.warning.as_deref(), Some(system_audio_runtime_reason()));
    assert!(!system_audio_runtime_supported());

    let snapshot = initial_snapshot(42, 1_000, &plan);
    assert_eq!(snapshot.id, 42);
    assert_eq!(snapshot.title, "Ambient session");
    assert_eq!(snapshot.state, AmbientSessionState::Recording);
    assert_eq!(snapshot.started_at_ms, 1_000);
    assert_eq!(snapshot.warning, plan.warning);
    assert_eq!(snapshot.elapsed_ms, 0);

    config.ambient_system_audio = false;
    let plan = start_session_plan(false, &config).ok().unwrap();
    assert_eq!(plan.warning, None);
}

#[test]
fn stopping_and_reprocessing_checks() {
    assert!(stop_session_check(true).is_ok());
    assert_eq!(stop_session_check(false).err(), Some("No active ambient session.".to_string()));
    assert_eq!(
        reprocess_session_check(true, Some(detail(1))).err(),
        Some("Cannot reprocess while a session is active.".to_string())
    );
    assert_eq!(reprocess_session_check(false, None).err(), Some("Session not found.".to_string()));
    assert_eq!(reprocess_session_check(false, Some(detail(7))).ok().map(|d| d.id), Some(7));
}

#[test]
fn the_scratch_pad_goes_before_the_transcript() {
    assert_eq!(notes_with_scratch("  \n", "live"), "live");
    assert_eq!(
        notes_with_scratch("todo", "live"),
        "--- User Notes (Scratch Pad) ---\ntodo\n--- End User Notes ---\n\nlive"
    );
}

#[test]
fn a_failed_summary_becomes_a_short_fallback() {
    assert_eq!(fallback_summary("Weekly sync", "model offline"), "# Summary\n\nWeekly sync\n\n# Key Points\n\n- model offline");
    assert_eq!(final_session_state(""), AmbientSessionState::Failed);
    assert_eq!(final_session_state("## Summary"), AmbientSessionState::Completed);
}

#[test]
fn edits_reach_only_the_running_session() {
    let config = Config::default();
    let plan = start_session_plan(false, &config).ok().unwrap();
    let mut snapshot = initial_snapshot(7, 0, &plan);

    assert!(!edit_active_snapshot(&mut snapshot, 8, SnapshotEdit::LiveNotes("x".to_string())));
    assert_eq!(snapshot.live_notes, "");

    assert!(edit_active_snapshot(&mut snapshot, 7, SnapshotEdit::LiveNotes("notes".to_string())));
    assert_eq!(snapshot.live_notes, "notes");
    assert!(edit_active_snapshot(&mut snapshot, 7, SnapshotEdit::ScratchPad("pad".to_string())));
    assert_eq!(snapshot.scratch_pad, "pad");
    assert_eq!(snapshot.live_notes, "notes");
    assert!(edit_active_snapshot(&mut snapshot, 7, SnapshotEdit::Template(SummaryTemplate::TeamMeeting)));
    assert_eq!(snapshot.summary_template, SummaryTemplate::TeamMeeting);
    assert_eq!(snapshot.scratch_pad, "pad");
}
