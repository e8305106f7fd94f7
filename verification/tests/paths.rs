use screamer::models::{
    current_bundle_summary_models_dir, find_model, first_existing_path, first_present, find_summary_model, find_vision_model,
    model_search_paths, summary_model_exists, summary_model_search_paths,
    DEFAULT_BUNDLED_SUMMARY_MODEL_ID,
};

#[test]
fn whisper_models_are_looked_for_bundle_first() {
    assert_eq!(
        model_search_paths("base", Some("/App/Resources/models")),
        vec![
            "/App/Resources/models/ggml-base.en.bin".to_string(),
            "models/ggml-base.en.bin".to_string(),
            "/App/Resources/models/ggml-base.bin".to_string(),
            "models/ggml-base.bin".to_string(),
            "/App/Resources/models/ggml-base-v3.bin".to_string(),
            "models/ggml-base-v3.bin".to_string(),
        ]
    );
    assert_eq!(model_search_paths("tiny", None).len(), 3);
}

#[test]
fn missing_models_are_not_found() {
    assert_eq!(find_model("no-such-model-anywhere", Some("/nonexistent/dir")), None);
    assert_eq!(find_summary_model("not-bundled", None), None);
    assert!(!summary_model_exists("not-bundled", Some("/nonexistent")));
    assert_eq!(find_vision_model(Some("/nonexistent/dir")), None);
    assert_eq!(summary_model_search_paths("other", None), None);
    assert_eq!(
        summary_model_search_paths(DEFAULT_BUNDLED_SUMMARY_MODEL_ID, None),
        Some(vec!["models/summary/gemma-3-1b-it-q4_k_m.gguf".to_string()])
    );
}

#[test]
fn the_summary_models_directory_is_inside_the_models_directory() {
    assert_eq!(current_bundle_summary_models_dir(Some("/App/models")), Some("/App/models/summary".to_string()));
    assert_eq!(current_bundle_summary_models_dir(None), None);
}

#[test]
fn the_first_present_path_is_chosen() {
    let paths: Vec<String> = vec!["a".to_string(), "b".to_string(), "c".to_string()];
    assert_eq!(first_present(&paths, &vec![false, true]), Some("b".to_string()));
    assert_eq!(first_present(&paths, &vec![true, true, true]), Some("a".to_string()));
    assert_eq!(first_present(&paths, &vec![false, false, false]), None);
    assert_eq!(first_present(&paths, &vec![]), None);
    assert_eq!(first_existing_path(&Vec::new()), None);
    let here = vec!["/nonexistent/x".to_string(), ".".to_string()];
    assert_eq!(first_existing_path(&here), Some(".".to_string()));
}
