use screamer::config::{Config, GEMINI_KEY_MISSING, OPENAI_KEY_MISSING};
use screamer::logging::{log_ambient_session_report, vision_debug_file_name};
use screamer::ui::{model_menu_title, model_not_found_error, selectable_model_title};

#[test]
fn api_keys_come_from_the_environment_first() {
    assert_eq!(Config::resolve_openai_api_key(Some("  sk-1 "), Some(Ok("file".to_string()))), Ok("sk-1".to_string()));
    assert_eq!(Config::resolve_openai_api_key(Some("  "), Some(Ok(" k2 \nrest".to_string()))), Ok("k2".to_string()));
    assert_eq!(Config::resolve_openai_api_key(None, Some(Ok("\nk3".to_string()))), Err(OPENAI_KEY_MISSING.to_string()));
    assert_eq!(Config::resolve_gemini_api_key(None, None), Err(GEMINI_KEY_MISSING.to_string()));
    assert_eq!(Config::resolve_gemini_api_key(None, Some(Err("denied".to_string()))), Err("denied".to_string()));
}

#[test]
fn model_menu_titles() {
    assert_eq!(model_menu_title("base", true), "Base (142 MB)");
    assert_eq!(model_menu_title("small", false), "Small (466 MB) — Not Downloaded");
    assert_eq!(model_menu_title("custom", false), "custom");
    assert_eq!(selectable_model_title("tiny", Some("/nonexistent")), "Tiny (75 MB) — Not Downloaded");
    assert_eq!(selectable_model_title("custom", None), "custom");
    let error = model_not_found_error("base");
    assert_eq!(error.title, "Model Not Found");
    assert_eq!(
        error.message,
        "Could not find the whisper model 'ggml-base.en.bin'.\n\nPlease run: ./download_model.sh base\n\nThis will download the model to the models/ directory."
    );
}

#[test]
fn the_session_report() {
    let lines = log_ambient_session_report(
        "recording", 7, "Plan\n q3", "completed", 1_000, 400, "Bundled", "general", None, "", "x\ny",
    );
    assert_eq!(
        lines,
        vec![
            "[screamer][ambient-report] BEGIN",
            "source: recording",
            "session_id: 7",
            "state: completed",
            "title: Plan q3",
            "started_at_ms: 1000",
            "ended_at_ms: 400",
            "duration_ms: -600",
            "summary_backend: Bundled",
            "summary_template: general",
            "warning: none",
            "transcript_chars: 0",
            "summary_chars: 3",
            "transcript:",
            "  (empty)",
            "summary:",
            "  x",
            "  y",
            "[screamer][ambient-report] END",
        ]
    );
}

#[test]
fn saved_screenshot_names() {
    assert_eq!(vision_debug_file_name(17, 42, 3, "open ai", "answer/1"), "vision-17-42-3-open_ai-answer_1.png");
}
