use screamer::models::{
    bundled_model_candidates, bundled_summary_model, DEFAULT_BUNDLED_SUMMARY_MODEL_FILENAME,
    DEFAULT_BUNDLED_SUMMARY_MODEL_ID,
};

#[test]
fn model_candidates_cover_current_bundle_conventions() {
    let candidates = bundled_model_candidates("base");

    assert_eq!(candidates[0], "ggml-base.en.bin");
    assert_eq!(candidates[1], "ggml-base.bin");
    assert_eq!(candidates[2], "ggml-base-v3.bin");
}

#[test]
fn bundled_summary_model_metadata_is_present() {
    let model = bundled_summary_model().unwrap();
    assert_eq!(model.id, DEFAULT_BUNDLED_SUMMARY_MODEL_ID);
    assert_eq!(model.filename, DEFAULT_BUNDLED_SUMMARY_MODEL_FILENAME);
}
