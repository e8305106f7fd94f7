use screamer::config::{
    AmbientFinalBackendPreference, AppAppearance, Config, OverlayPosition,
    SummaryBackendPreference, VisionProvider,
};
use screamer::settings::{
    apply_settings_choice, settings_selection, summary_option_index, SettingsChoice,
    SettingsOutcome, SummaryModelOption,
};

#[test]
fn list_choices_by_index() {
    let mut config = Config::default();
    assert_eq!(
        apply_settings_choice(&mut config, SettingsChoice::Hotkey(7)),
        SettingsOutcome::NoSuchEntry
    );
    assert_eq!(
        apply_settings_choice(&mut config, SettingsChoice::Hotkey(0)),
        SettingsOutcome::Unchanged
    );
    assert_eq!(
        apply_settings_choice(&mut config, SettingsChoice::Hotkey(6)),
        SettingsOutcome::Changed
    );
    assert_eq!(config.hotkey, "fn");
    assert_eq!(config.vision_hotkey, "left_option");

    assert_eq!(
        apply_settings_choice(&mut config, SettingsChoice::VisionHotkey(3)),
        SettingsOutcome::Changed
    );
    assert_eq!(config.vision_hotkey, "right_option");

    assert_eq!(
        apply_settings_choice(&mut config, SettingsChoice::Position(2)),
        SettingsOutcome::Changed
    );
    assert_eq!(config.overlay_position, OverlayPosition::Bottom);
    // Choosing the current position still saves it.
    assert_eq!(
        apply_settings_choice(&mut config, SettingsChoice::Position(2)),
        SettingsOutcome::Changed
    );

    assert_eq!(
        apply_settings_choice(&mut config, SettingsChoice::VisionProvider(2)),
        SettingsOutcome::Changed
    );
    assert_eq!(config.vision_provider, VisionProvider::Gemini);
    assert_eq!(
        apply_settings_choice(&mut config, SettingsChoice::AmbientFinalBackend(1)),
        SettingsOutcome::Changed
    );
    assert_eq!(config.ambient_final_backend, AmbientFinalBackendPreference::NativeDiarization);
    assert_eq!(
        apply_settings_choice(&mut config, SettingsChoice::AmbientFinalBackend(2)),
        SettingsOutcome::NoSuchEntry
    );
}

#[test]
fn a_missing_model_is_not_selected() {
    let mut config = Config::default();
    assert_eq!(
        apply_settings_choice(&mut config, SettingsChoice::Model { index: 2, installed: false }),
        SettingsOutcome::ModelMissing
    );
    assert_eq!(config.model, "base");
    assert_eq!(
        apply_settings_choice(&mut config, SettingsChoice::Model { index: 1, installed: false }),
        SettingsOutcome::Unchanged
    );
    assert_eq!(
        apply_settings_choice(&mut config, SettingsChoice::Model { index: 2, installed: true }),
        SettingsOutcome::Changed
    );
    assert_eq!(config.model, "small");
}

#[test]
fn switches_and_summary_models() {
    let mut config = Config::default();
    assert_eq!(
        apply_settings_choice(&mut config, SettingsChoice::Appearance(AppAppearance::Dark)),
        SettingsOutcome::Unchanged
    );
    assert_eq!(
        apply_settings_choice(&mut config, SettingsChoice::Appearance(AppAppearance::Light)),
        SettingsOutcome::Changed
    );
    assert_eq!(config.appearance, AppAppearance::Light);
    apply_settings_choice(&mut config, SettingsChoice::LiveTranscription(false));
    apply_settings_choice(&mut config, SettingsChoice::SoundEffects(false));
    apply_settings_choice(&mut config, SettingsChoice::AmbientMicrophone(false));
    apply_settings_choice(&mut config, SettingsChoice::AmbientSystemAudio(false));
    assert!(!config.live_transcription && !config.sound_effects);
    assert!(!config.ambient_microphone && !config.ambient_system_audio);

    apply_settings_choice(
        &mut config,
        SettingsChoice::SummaryModel(SummaryBackendPreference::Ollama, "llama3".to_string()),
    );
    assert_eq!(config.summary_backend, SummaryBackendPreference::Ollama);
    assert_eq!(config.summary_ollama_model, "llama3");
    apply_settings_choice(
        &mut config,
        SettingsChoice::SummaryModel(SummaryBackendPreference::Bundled, "other".to_string()),
    );
    assert_eq!(config.summary_backend, SummaryBackendPreference::Bundled);
    assert_eq!(config.summary_ollama_model, "llama3");

    assert_eq!(
        apply_settings_choice(&mut config, SettingsChoice::AccessibilityHelperDismissed(false)),
        SettingsOutcome::Unchanged
    );
    assert_eq!(
        apply_settings_choice(&mut config, SettingsChoice::AccessibilityHelperDismissed(true)),
        SettingsOutcome::Changed
    );
    assert!(config.accessibility_helper_dismissed);
}

#[test]
fn the_window_shows_the_chosen_entries() {
    let mut config = Config::default();
    let shown = settings_selection(&config);
    assert_eq!(shown.model, Some(1));
    assert_eq!(shown.hotkey, Some(0));
    assert_eq!(shown.position, 0);
    assert_eq!(shown.appearance_segment, 0);
    assert_eq!(shown.final_backend, 0);

    apply_settings_choice(&mut config, SettingsChoice::Hotkey(6));
    apply_settings_choice(&mut config, SettingsChoice::Position(1));
    apply_settings_choice(&mut config, SettingsChoice::Appearance(AppAppearance::Light));
    let shown = settings_selection(&config);
    assert_eq!(shown.hotkey, Some(6));
    assert_eq!(shown.position, 1);
    assert_eq!(shown.appearance_segment, 1);

    config.model = "large".to_string();
    config.hotkey = "caps_lock".to_string();
    let shown = settings_selection(&config);
    assert_eq!(shown.model, None);
    assert_eq!(shown.hotkey, None);
}

fn option(label: &str, backend: SummaryBackendPreference, value: &str) -> SummaryModelOption {
    SummaryModelOption { label: label.to_string(), backend, value: value.to_string() }
}

#[test]
fn the_summary_popup_shows_the_configured_model() {
    let options = vec![
        option("Bundled", SummaryBackendPreference::Bundled, ""),
        option("Ollama a", SummaryBackendPreference::Ollama, "a"),
        option("Ollama b", SummaryBackendPreference::Ollama, "b"),
    ];
    let mut config = Config::default();
    assert_eq!(summary_option_index(&options, &config), 0);
    config.summary_backend = SummaryBackendPreference::Ollama;
    config.summary_ollama_model = "b".to_string();
    assert_eq!(summary_option_index(&options, &config), 2);
    config.summary_ollama_model = "c".to_string();
    assert_eq!(summary_option_index(&options, &config), 0);
    assert_eq!(summary_option_index(&Vec::new(), &config), 0);
}
