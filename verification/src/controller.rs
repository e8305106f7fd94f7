//! The decisions of the ambient session controller: whether a session may start, stop or
//! be processed again, what a new session looks like, and how a finished one is summed up.
use vstd::prelude::*;
use crate::ambient::{
    polish_summary_markdown, AmbientSessionConfig, AmbientSessionState, SummaryTemplate,
    DEFAULT_CHUNK_SECONDS, DEFAULT_OVERLAP_SECONDS,
};
use crate::config::{AmbientFinalBackendPreference, Config, SummaryBackendPreference};
use crate::markdown::polish;
use crate::store::SessionDetail;
use crate::text::{append_vec, from_chars, to_chars, trim, trimmed, CharClass};
use crate::ui::{append_warning, warning_after, AmbientSessionSnapshot};
use crate::ambient::{seg_views, segments_to_transcript, transcript_of, CanonicalSegment};
use crate::final_pass::AmbientFinalPassResult;
use crate::markdown::opt_string_view;
use crate::text::concat3;

verus! {

pub const SYSTEM_AUDIO_UNAVAILABLE: &'static str = "System output capture is gated for a newer backend build; microphone ambient capture is available now.";

/// System output capture is not available in this build.
pub fn system_audio_runtime_supported() -> (r: bool)
    ensures
        !r,
{
    false
}

/// Why system output capture is not available.
pub fn system_audio_runtime_reason() -> (r: &'static str)
    ensures
        r@ == SYSTEM_AUDIO_UNAVAILABLE@,
{
    SYSTEM_AUDIO_UNAVAILABLE
}

/// What a session about to start records and shows.
pub struct SessionStartPlan {
    pub ambient_config: AmbientSessionConfig,
    pub summary_backend_label: String,
    pub warning: Option<String>,
}

pub open spec fn backend_label_of(config: Config) -> Seq<char> {
    match config.summary_backend {
        SummaryBackendPreference::Bundled => "Bundled Gemma 3 1B"@,
        SummaryBackendPreference::Ollama => "Local Ollama"@,
    }
}

/// A session may start when none is running and at least one input is on. It captures the
/// inputs of the settings with the default chunking, is summed up by the backend of the
/// settings, and warns that system output is not captured when it was asked for.
pub fn start_session_plan(session_active: bool, config: &Config) -> (r: Result<
    SessionStartPlan,
    String,
>)
    ensures
        session_active ==> (r matches Err(e) && e@ == "An ambient session is already running."@),
        !session_active && !config.ambient_microphone && !config.ambient_system_audio ==> (r matches Err(
            e,
        ) && e@ == "Enable microphone or system audio in Settings before starting notetaker."@),
        !session_active && (config.ambient_microphone || config.ambient_system_audio) ==> (r matches Ok(
            p,
        ) && {
            &&& p.ambient_config == AmbientSessionConfig {
                enable_microphone: config.ambient_microphone,
                enable_system_audio: config.ambient_system_audio,
                chunk_seconds: DEFAULT_CHUNK_SECONDS,
                overlap_seconds: DEFAULT_OVERLAP_SECONDS,
            }
            &&& p.summary_backend_label@ == backend_label_of(*config)
            &&& config.ambient_system_audio ==> (p.warning matches Some(w) && w@
                == SYSTEM_AUDIO_UNAVAILABLE@)
            &&& !config.ambient_system_audio ==> p.warning is None
        }),
{
    if session_active {
        return Err("An ambient session is already running.".to_string());
    }
    let ambient_config = AmbientSessionConfig {
        enable_microphone: config.ambient_microphone,
        enable_system_audio: config.ambient_system_audio,
        ..AmbientSessionConfig::default()
    };
    if !ambient_config.enable_microphone && !ambient_config.enable_system_audio {
        return Err(
            "Enable microphone or system audio in Settings before starting notetaker.".to_string(),
        );
    }
    let label = config.summary_backend_label();
    proof {
        reveal_strlit("Bundled Gemma 3 1B");
        reveal_strlit("Local Ollama");
    }
    let summary_backend_label = if label.is_empty() {
        "Bundled Gemma 3 1B".to_string()
    } else {
        label.to_string()
    };
    let warning = if ambient_config.enable_system_audio && !system_audio_runtime_supported() {
        Some(system_audio_runtime_reason().to_string())
    } else {
        None
    };
    Ok(SessionStartPlan { ambient_config, summary_backend_label, warning })
}

/// What the view shows of a session that has just started.
pub fn initial_snapshot(session_id: i64, started_at_ms: i64, plan: &SessionStartPlan) -> (r:
    AmbientSessionSnapshot)
    ensures
        r.id == session_id,
        r.title@ == "Ambient session"@,
        r.state == AmbientSessionState::Recording,
        r.started_at_ms == started_at_ms,
        r.ended_at_ms is None,
        r.live_notes@.len() == 0,
        r.structured_notes@.len() == 0,
        r.transcript_markdown@.len() == 0,
        r.scratch_pad@.len() == 0,
        r.segments@.len() == 0,
        crate::markdown::opt_string_view(&r.warning) == crate::markdown::opt_string_view(
            &plan.warning,
        ),
        r.microphone_enabled == plan.ambient_config.enable_microphone,
        r.system_audio_requested == plan.ambient_config.enable_system_audio,
        !r.system_audio_active,
        r.summary_backend_label@ == plan.summary_backend_label@,
        r.summary_template == SummaryTemplate::General,
        r.elapsed_ms == 0,
{
    let warning = match &plan.warning {
        Some(w) => Some(w.clone()),
        None => None,
    };
    AmbientSessionSnapshot {
        id: session_id,
        title: "Ambient session".to_string(),
        state: AmbientSessionState::Recording,
        started_at_ms,
        ended_at_ms: None,
        live_notes: String::new(),
        structured_notes: String::new(),
        transcript_markdown: String::new(),
        scratch_pad: String::new(),
        segments: Vec::new(),
        warning,
        microphone_enabled: plan.ambient_config.enable_microphone,
        system_audio_requested: plan.ambient_config.enable_system_audio,
        system_audio_active: false,
        summary_backend_label: plan.summary_backend_label.clone(),
        summary_template: SummaryTemplate::General,
        elapsed_ms: 0,
    }
}

/// A session can be stopped only while one is running.
pub fn stop_session_check(session_active: bool) -> (r: Result<(), String>)
    ensures
        session_active <==> r is Ok,
        !session_active ==> (r matches Err(e) && e@ == "No active ambient session."@),
{
    if !session_active {
        return Err("No active ambient session.".to_string());
    }
    Ok(())
}

/// A stored session can be processed again only while no session is running, and only when
/// it exists.
pub fn reprocess_session_check(session_active: bool, detail: Option<SessionDetail>) -> (r: Result<
    SessionDetail,
    String,
>)
    ensures
        session_active ==> (r matches Err(e) && e@ == "Cannot reprocess while a session is active."@),
        !session_active && detail is None ==> (r matches Err(e) && e@ == "Session not found."@),
        !session_active && detail is Some ==> (r matches Ok(d) && d == detail->0),
{
    if session_active {
        return Err("Cannot reprocess while a session is active.".to_string());
    }
    match detail {
        Some(d) => Ok(d),
        None => Err("Session not found.".to_string()),
    }
}

/// The notes handed to the summarizer: the transcript, after the scratch pad in its own
/// section when the scratch pad is not blank.
pub open spec fn notes_for_summary(scratch_pad: Seq<char>, live_notes: Seq<char>) -> Seq<char> {
    if trim(scratch_pad).len() == 0 {
        live_notes
    } else {
        "--- User Notes (Scratch Pad) ---\n"@ + scratch_pad + "\n--- End User Notes ---\n\n"@
            + live_notes
    }
}

pub fn notes_with_scratch(scratch_pad: &str, live_notes: &str) -> (r: String)
    ensures
        r@ == notes_for_summary(scratch_pad@, live_notes@),
{
    let sp = to_chars(scratch_pad);
    let t = trimmed(&sp, CharClass::Whitespace);
    if t.len() == 0 {
        return live_notes.to_string();
    }
    let mut out = to_chars("--- User Notes (Scratch Pad) ---\n");
    append_vec(&mut out, &sp);
    append_vec(&mut out, &to_chars("\n--- End User Notes ---\n\n"));
    append_vec(&mut out, &to_chars(live_notes));
    assert(out@ =~= notes_for_summary(scratch_pad@, live_notes@));
    from_chars(&out)
}

/// The summary written when the summarizer fails: the title hint and the error, polished.
pub open spec fn fallback_text(title_hint: Seq<char>, err: Seq<char>) -> Seq<char> {
    polish("## Summary\n\n"@ + title_hint + "\n\n## Key Points\n\n- "@ + err + "\n"@)
}

pub fn fallback_summary(title_hint: &str, err: &str) -> (r: String)
    ensures
        r@ == fallback_text(title_hint@, err@),
{
    let mut out = to_chars("## Summary\n\n");
    append_vec(&mut out, &to_chars(title_hint));
    append_vec(&mut out, &to_chars("\n\n## Key Points\n\n- "));
    append_vec(&mut out, &to_chars(err));
    append_vec(&mut out, &to_chars("\n"));
    assert(out@ =~= "## Summary\n\n"@ + title_hint@ + "\n\n## Key Points\n\n- "@ + err@ + "\n"@);
    let text = from_chars(&out);
    polish_summary_markdown(text.as_str())
}

/// A finished session failed when it has no summary, and completed otherwise.
pub fn final_session_state(structured_notes: &str) -> (r: AmbientSessionState)
    ensures
        r == if structured_notes@.len() == 0 {
            AmbientSessionState::Failed
        } else {
            AmbientSessionState::Completed
        },
{
    if structured_notes.is_empty() {
        AmbientSessionState::Failed
    } else {
        AmbientSessionState::Completed
    }
}


/// A change that the controller makes to the session that is running.
pub enum SnapshotEdit {
    LiveNotes(String),
    ScratchPad(String),
    Template(SummaryTemplate),
}

/// What `persist_live_notes`, `persist_scratch_pad` and `set_summary_template` do to the
/// running session's snapshot: the edit applies where the running session is the one that
/// was edited (the return value), and nothing else of the snapshot changes.
pub fn edit_active_snapshot(active: &mut AmbientSessionSnapshot, session_id: i64, edit: SnapshotEdit) -> (applied: bool)
    ensures
        applied == (old(active).id == session_id),
        !applied ==> *final(active) == *old(active),
        applied ==> match edit {
            SnapshotEdit::LiveNotes(t) => *final(active) == (AmbientSessionSnapshot {
                live_notes: t,
                ..*old(active)
            }),
            SnapshotEdit::ScratchPad(t) => *final(active) == (AmbientSessionSnapshot {
                scratch_pad: t,
                ..*old(active)
            }),
            SnapshotEdit::Template(t) => *final(active) == (AmbientSessionSnapshot {
                summary_template: t,
                ..*old(active)
            }),
        },
{
    if active.id != session_id {
        return false;
    }
    match edit {
        SnapshotEdit::LiveNotes(t) => {
            active.live_notes = t;
        },
        SnapshotEdit::ScratchPad(t) => {
            active.scratch_pad = t;
        },
        SnapshotEdit::Template(t) => {
            active.summary_template = t;
        },
    }
    true
}


/// The native final pass runs when a session ends only where the settings choose the
/// native diarization backend and the session recorded audio.
pub fn runs_native_final_pass(backend: AmbientFinalBackendPreference, sample_count: usize) -> (r: bool)
    ensures
        r == (backend == AmbientFinalBackendPreference::NativeDiarization && sample_count > 0),
{
    backend == AmbientFinalBackendPreference::NativeDiarization && sample_count > 0
}

/// The warning of a failed native final pass, before its error.
pub const FINAL_PASS_FAILED: &'static str = "Native diarization final pass failed; using native transcript. ";

/// What a session keeps after the native final pass: on success the pass's segments, the
/// transcript written from them as the live notes, and the pass's warning added to the
/// session's; on failure the session's own segments and notes, and a warning that the
/// native transcript is kept, with the error.
pub fn apply_final_pass(
    segments: Vec<CanonicalSegment>,
    live_notes: String,
    warning: Option<String>,
    outcome: Result<AmbientFinalPassResult, String>,
) -> (r: (Vec<CanonicalSegment>, String, Option<String>))
    ensures
        match outcome {
            Ok(fp) => seg_views(r.0@) == seg_views(fp.segments@) && r.1@ == transcript_of(
                seg_views(fp.segments@),
            ) && opt_string_view(&r.2) == match fp.diagnostics.warning {
                Some(w) => Some(warning_after(opt_string_view(&warning), w@)),
                None => opt_string_view(&warning),
            },
            Err(e) => seg_views(r.0@) == seg_views(segments@) && r.1@ == live_notes@
                && opt_string_view(&r.2) == Some(
                warning_after(opt_string_view(&warning), FINAL_PASS_FAILED@ + e@),
            ),
        },
{
    match outcome {
        Ok(fp) => {
            let notes = segments_to_transcript(fp.segments.as_slice());
            let w = match fp.diagnostics.warning {
                Some(d) => {
                    let existing: Option<&str> = match &warning {
                        Some(x) => Some(x.as_str()),
                        None => None,
                    };
                    Some(append_warning(existing, d.as_str()))
                },
                None => warning,
            };
            (fp.segments, notes, w)
        },
        Err(e) => {
            let existing: Option<&str> = match &warning {
                Some(x) => Some(x.as_str()),
                None => None,
            };
            let message = concat3(FINAL_PASS_FAILED, e.as_str(), "");
            proof {
                reveal_strlit("");
                assert(message@ =~= FINAL_PASS_FAILED@ + e@);
            }
            let w = append_warning(existing, message.as_str());
            (segments, live_notes, Some(w))
        },
    }
}

} // verus!
