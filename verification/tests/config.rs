use screamer::config::{
    AmbientFinalBackendPreference, AppAppearance, Config, OverlayPosition,
    SummaryBackendPreference, VisionProvider,
};

#[test]
fn default_config() {
    let config = Config::default();
    assert_eq!(config.model, "base");
    assert_eq!(config.hotkey, "left_control");
    assert_eq!(config.overlay_position, OverlayPosition::Center);
    assert_eq!(config.appearance, AppAppearance::Dark);
    assert!(config.live_transcription);
    assert!(config.sound_effects);
    assert!(config.ambient_microphone);
    assert!(config.ambient_system_audio);
    assert_eq!(
        config.ambient_final_backend,
        AmbientFinalBackendPreference::Native
    );
    assert_eq!(config.summary_backend, SummaryBackendPreference::Bundled);
    assert_eq!(config.summary_ollama_model, "gemma4:latest");
    assert!(config.show_accessibility_helper_on_launch);
    assert!(!config.accessibility_helper_dismissed);
    assert_eq!(config.vision_hotkey, "left_option");
    assert_eq!(config.vision_provider, VisionProvider::Local);
    assert_eq!(config.vision_openai_model, "gpt-4o-mini");
    assert_eq!(config.vision_gemini_model, "gemini-3.1-pro-preview");
    assert!(!config.vision_fast_screen_help);
}

#[test]
fn hotkey_info_lookup() {
    let config = Config::default();
    let config = Config {
        hotkey: "right_option".to_string(),
        ..config
    };
    let info = config.hotkey_info();
    assert_eq!(info.id, "right_option");
    assert_eq!(info.modifier_flag, 0x00080000);
}

#[test]
fn hotkey_info_fallback() {
    let config = Config {
        hotkey: "nonexistent".to_string(),
        ..Config::default()
    };
    let info = config.hotkey_info();
    assert_eq!(info.id, "left_control");
}

#[test]
fn position_label() {
    let config = Config {
        overlay_position: OverlayPosition::Top,
        ..Config::default()
    };
    assert_eq!(config.position_label(), "Top");
}

#[test]
fn appearance_label() {
    let config = Config {
        appearance: AppAppearance::Light,
        ..Config::default()
    };
    assert_eq!(config.appearance_label(), "Light");
}

#[test]
fn normalize_invalid_config_values() {
    let config = Config {
        model: "unknown".to_string(),
        hotkey: "unknown".to_string(),
        ..Config::default()
    }
    .normalized();

    assert_eq!(config.model, "base");
    assert_eq!(config.hotkey, "left_control");
}
