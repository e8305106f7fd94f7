use screamer::ambient::{stitch_text, AudioLane, CanonicalSegment, SpeakerLabel};
use screamer::assets::latest_version_dir;
use screamer::config::{AmbientFinalBackendPreference, Config};
use screamer::controller::{apply_final_pass, runs_native_final_pass};
use screamer::final_pass::{AmbientFinalPassDiagnostics, AmbientFinalPassResult};
use screamer::hotkey::{dictation_gate, dictation_start, DictationGate, DictationStart};
use screamer::permissions::MicrophonePermissionOutcome;
use screamer::regions::{
    native_asset_choice, native_final_pass_result, NativePassTimings, RegionSource,
};

fn segment(id: u64, speaker: SpeakerLabel, text: &str) -> CanonicalSegment {
    CanonicalSegment {
        id,
        lane: AudioLane::Microphone,
        speaker,
        start_ms: id * 1_000,
        end_ms: id * 1_000 + 500,
        text: text.to_string(),
    }
}

fn diagnostics(warning: Option<&str>) -> AmbientFinalPassDiagnostics {
    AmbientFinalPassDiagnostics {
        asset_version: None,
        runtime_backend: None,
        warning: warning.map(|w| w.to_string()),
        detected_speakers: 2,
        transcription_ms: 0,
        alignment_ms: 0,
        diarization_ms: 0,
        assignment_ms: 0,
        segmentation_ms: 0,
        embedding_ms: 0,
        clustering_ms: 0,
        total_ms: 0,
    }
}

#[test]
fn a_successful_final_pass_replaces_the_transcript() {
    let native = vec![segment(1, SpeakerLabel::S1, "hello there")];
    let pass = AmbientFinalPassResult {
        engine: "native_diarization_builtin_v1".to_string(),
        transcript_text: "hello there friend".to_string(),
        segments: vec![
            segment(1, SpeakerLabel::S1, "hello there"),
            segment(2, SpeakerLabel::S2, "friend"),
        ],
        diagnostics: diagnostics(Some("models missing")),
    };
    let (segments, notes, warning) =
        apply_final_pass(native, "Person A: hello there".to_string(), None, Ok(pass));
    assert_eq!(segments.len(), 2);
    assert_eq!(notes, "Person A: hello there\nPerson B: friend");
    assert_eq!(warning.as_deref(), Some("models missing"));
}

#[test]
fn a_failed_final_pass_keeps_the_native_transcript() {
    let native = vec![segment(1, SpeakerLabel::S1, "hello there")];
    let (segments, notes, warning) = apply_final_pass(
        native,
        "Person A: hello there".to_string(),
        Some("mic quiet".to_string()),
        Err("no audio".to_string()),
    );
    assert_eq!(segments.len(), 1);
    assert_eq!(segments[0].text, "hello there");
    assert_eq!(notes, "Person A: hello there");
    assert_eq!(
        warning.as_deref(),
        Some("mic quiet\nNative diarization final pass failed; using native transcript. no audio")
    );
    assert!(runs_native_final_pass(AmbientFinalBackendPreference::NativeDiarization, 10));
    assert!(!runs_native_final_pass(AmbientFinalBackendPreference::NativeDiarization, 0));
    assert!(!runs_native_final_pass(AmbientFinalBackendPreference::Native, 10));
}

fn timings() -> NativePassTimings {
    NativePassTimings { segmentation_ms: 3, embedding_ms: 4, clustering_ms: 5, assignment_ms: 6, total_ms: 20 }
}

#[test]
fn the_native_pass_result_names_what_built_the_regions() {
    let choice = native_asset_choice(Ok(Some(("v7".to_string(), true))));
    let r = native_final_pass_result(
        choice,
        RegionSource::Models("onnx_runtime_coreml_v1".to_string()),
        Vec::new(),
        "text".to_string(),
        2,
        timings(),
    );
    assert_eq!(r.engine, "native_diarization_ort_coreml_v1");
    assert_eq!(r.diagnostics.runtime_backend.as_deref(), Some("onnx_runtime_coreml_v1"));
    assert_eq!(r.diagnostics.asset_version.as_deref(), Some("v7"));
    assert_eq!(r.diagnostics.warning, None);
    assert_eq!(r.diagnostics.diarization_ms, 12);
    assert_eq!(r.diagnostics.total_ms, 20);

    let choice = native_asset_choice(Ok(Some(("v7".to_string(), true))));
    let r = native_final_pass_result(
        choice,
        RegionSource::ModelsFailed("boom".to_string()),
        Vec::new(),
        "text".to_string(),
        1,
        timings(),
    );
    assert_eq!(r.engine, "native_diarization_builtin_v1");
    assert_eq!(r.diagnostics.runtime_backend.as_deref(), Some("builtin_mfcc_v1"));
    assert_eq!(
        r.diagnostics.warning.as_deref(),
        Some("Ambient diarization model runtime failed; using built-in native diarization. boom")
    );

    let choice = native_asset_choice(Ok(None));
    let r = native_final_pass_result(choice, RegionSource::Builtin, Vec::new(), String::new(), 1, timings());
    assert_eq!(
        r.diagnostics.warning.as_deref(),
        Some("Ambient diarization assets are not installed; using built-in native diarization.")
    );
}

#[test]
fn discover_picks_latest_version_directory() {
    let names = vec!["2026-01-01".to_string(), "2026-02-01".to_string()];
    assert_eq!(latest_version_dir(&names), Some(1));
    let names = vec!["b".to_string(), "a".to_string(), "ab".to_string()];
    assert_eq!(latest_version_dir(&names), Some(0));
    assert_eq!(latest_version_dir(&Vec::new()), None);
}

#[test]
fn dictation_press_checks() {
    assert_eq!(dictation_gate(true, false, true), DictationGate::IgnoreWhileAmbient);
    assert_eq!(dictation_gate(false, true, true), DictationGate::AlreadyRecording);
    assert_eq!(dictation_gate(false, false, false), DictationGate::AskAccessibility);
    assert_eq!(dictation_gate(false, false, true), DictationGate::CheckMicrophone);
    assert_eq!(
        dictation_start(MicrophonePermissionOutcome::Granted, true),
        DictationStart::Record { play_start_sound: true }
    );
    assert_eq!(
        dictation_start(MicrophonePermissionOutcome::Prompted, true),
        DictationStart::WaitForMicrophone
    );
    assert_eq!(
        dictation_start(MicrophonePermissionOutcome::Denied, false),
        DictationStart::ShowMicrophoneGuidance
    );
}

#[test]
fn stitching_examples() {
    assert_eq!(stitch_text("hello there", "there friend"), "friend");
    assert_eq!(stitch_text("same words here", "same words here"), "");
    assert_eq!(stitch_text("", "  new text "), "new text");
    assert_eq!(stitch_text("anything", "   "), "");
}

#[test]
fn hotkey_entries_carry_their_flags() {
    let config = Config { vision_hotkey: "right_command".to_string(), ..Config::default() };
    let info = config.vision_hotkey_info();
    assert_eq!(info.id, "right_command");
    assert_eq!(info.modifier_flag, 0x00100000);
    assert_eq!(info.device_flag, 0x00000010);
    let config = Config { hotkey: "nonexistent".to_string(), ..Config::default() };
    let info = config.hotkey_info();
    assert_eq!(info.id, "left_control");
    assert_eq!(info.label, "Left Control ⌃");
    assert_eq!(info.device_flag, 0x00000001);
}
