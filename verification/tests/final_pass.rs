use screamer::final_pass::{
    helper_response_to_result, whisperx_model_for_screamer_model, WhisperxHelperDiagnostics,
    WhisperxHelperResponse, WhisperxHelperSegment,
};

#[test]
fn helper_response_maps_legacy_diagnostics() {
    let result = helper_response_to_result(WhisperxHelperResponse {
        engine: "legacy".to_string(),
        transcript_text: "hello".to_string(),
        segments: vec![WhisperxHelperSegment {
            start_ms: 0,
            end_ms: 1000,
            speaker: Some("SPEAKER_00".to_string()),
            text: "hello".to_string(),
            words: Vec::new(),
        }],
        diagnostics: WhisperxHelperDiagnostics {
            detected_speakers: 1,
            transcription_ms: 12,
            alignment_ms: 3,
            diarization_ms: 4,
            assignment_ms: 5,
            total_ms: 24,
        },
    })
    .unwrap();

    assert_eq!(result.diagnostics.transcription_ms, 12);
    assert_eq!(result.diagnostics.alignment_ms, 3);
    assert_eq!(result.diagnostics.total_ms, 24);
}

#[test]
fn maps_screamer_models_to_whisperx_models() {
    assert_eq!(whisperx_model_for_screamer_model("tiny"), "tiny.en");
    assert_eq!(whisperx_model_for_screamer_model("base"), "base.en");
    assert_eq!(whisperx_model_for_screamer_model("small"), "small.en");
    assert_eq!(whisperx_model_for_screamer_model("unknown"), "base.en");
}
