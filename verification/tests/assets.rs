use screamer::assets::{
    asset_file_check, model_spec_check,
    cache_subdir, default_frame_hop_ms, default_min_silence_ms, default_min_speech_ms,
    default_sample_rate_hz, default_segmentation_hop_ms, default_segmentation_window_ms,
    discover_asset_version, file_checksum_matches, manifest_header_check, sha256_hex,
    AmbientDiarizationAssetFile, AmbientModelInputLayout, AmbientModelOutputLayout,
    BUILTIN_ASSET_VERSION,
};

fn file(sha256: Option<&str>) -> AmbientDiarizationAssetFile {
    AmbientDiarizationAssetFile {
        relative_path: "model.onnx".to_string(),
        sha256: sha256.map(str::to_string),
        required: true,
    }
}

#[test]
fn sha256_of_known_inputs() {
    assert_eq!(sha256_hex(b"hello"), "2cf24dba5fb0a30e26e83b2ac5b9e29e1b161e5c1fa7425e73043362938b9824");
    assert_eq!(sha256_hex(b""), "e3b0c44298fc1c149afbf4c8996fb92427ae41e4649b934ca495991b7852b855");
}

#[test]
fn checksums_compare_in_lower_case() {
    let upper = "2CF24DBA5FB0A30E26E83B2AC5B9E29E1B161E5C1FA7425E73043362938B9824";
    assert!(file_checksum_matches(&file(Some(upper)), b"hello"));
    assert!(!file_checksum_matches(&file(Some(upper)), b"hello!"));
    assert!(file_checksum_matches(&file(None), b"anything"));
}

#[test]
fn manifest_headers_need_both_versions() {
    assert_eq!(
        manifest_header_check(0, "v1").err(),
        Some("Ambient diarization asset manifest is missing `format_version`.".to_string())
    );
    assert_eq!(
        manifest_header_check(1, "  ").err(),
        Some("Ambient diarization asset manifest is missing `asset_version`.".to_string())
    );
    assert!(manifest_header_check(1, "test-v1").is_ok());
}

#[test]
fn cache_directories_fall_back_when_blank() {
    assert_eq!(cache_subdir(Some("coreml"), "fallback"), "coreml");
    assert_eq!(cache_subdir(Some("  "), "fallback"), "fallback");
    assert_eq!(cache_subdir(None, "fallback"), "fallback");
}

#[test]
fn the_asset_version_in_use() {
    assert_eq!(discover_asset_version(Ok(Some("v2".to_string()))), Ok("v2".to_string()));
    assert_eq!(discover_asset_version(Ok(None)), Ok(BUILTIN_ASSET_VERSION.to_string()));
    assert_eq!(discover_asset_version(Err("bad".to_string())), Err("bad".to_string()));
}

#[test]
fn manifest_defaults() {
    assert_eq!(default_sample_rate_hz(), 16_000);
    assert_eq!(default_segmentation_window_ms(), 5_000);
    assert_eq!(default_segmentation_hop_ms(), 2_500);
    assert_eq!(default_frame_hop_ms(), 20);
    assert_eq!(default_min_speech_ms(), 200);
    assert_eq!(default_min_silence_ms(), 160);
    assert_eq!(AmbientModelInputLayout::default(), AmbientModelInputLayout::BatchSamples);
    assert_eq!(AmbientModelOutputLayout::default(), AmbientModelOutputLayout::BatchFramesSpeakers);
}

#[test]
fn pipeline_model_entries_are_checked_in_order() {
    assert_eq!(
        model_spec_check("segmentation", " ", true, "/a", 16_000, 1, 1, 1).err(),
        Some("Ambient diarization segmentation model is missing `relative_path`.".to_string())
    );
    assert_eq!(
        model_spec_check("embedding", "m.onnx", false, "/root/m.onnx", 16_000, 1, 1, 1).err(),
        Some("Ambient diarization embedding model is missing: /root/m.onnx".to_string())
    );
    assert_eq!(
        model_spec_check("embedding", "m.onnx", true, "/root/m.onnx", 0, 1, 1, 1).err(),
        Some("Ambient diarization embedding model has an invalid `sample_rate_hz`.".to_string())
    );
    assert_eq!(
        model_spec_check("embedding", "m.onnx", true, "/root/m.onnx", 1, 1, 0, 0).err(),
        Some("Ambient diarization embedding model has an invalid `hop_ms`.".to_string())
    );
    assert!(model_spec_check("embedding", "m.onnx", true, "/root/m.onnx", 1, 1, 1, 1).is_ok());
}

#[test]
fn manifest_validation_checks_sha256() {
    let entry = AmbientDiarizationAssetFile {
        relative_path: "embedding.onnx".to_string(),
        sha256: Some(sha256_hex(b"hello")),
        required: true,
    };
    assert!(manifest_header_check(1, "test-v1").is_ok());
    asset_file_check(&entry, "/tmp/assets/embedding.onnx", true, Some(Ok(b"hello".to_vec()))).unwrap();
}

#[test]
fn manifest_validation_checks_required_files() {
    let entry = AmbientDiarizationAssetFile {
        relative_path: "segmentation.onnx".to_string(),
        sha256: None,
        required: true,
    };
    assert!(manifest_header_check(1, "test-v1").is_ok());
    let err = asset_file_check(&entry, "/tmp/assets/segmentation.onnx", false, None).unwrap_err();
    assert!(err.contains("segmentation.onnx"));
}

#[test]
fn checksum_mismatches_and_read_failures_are_errors() {
    let mut entry = file(Some("deadbeef"));
    assert_eq!(
        asset_file_check(&entry, "/assets/model.onnx", true, Some(Ok(b"onnx".to_vec()))).err(),
        Some("Ambient diarization asset checksum mismatch for /assets/model.onnx".to_string())
    );
    assert_eq!(
        asset_file_check(&entry, "/assets/model.onnx", true, Some(Err("unreadable".to_string()))).err(),
        Some("unreadable".to_string())
    );
    entry.required = false;
    assert!(asset_file_check(&entry, "/assets/model.onnx", false, None).is_ok());
}

#[test]
fn pipeline_validation_checks_model_paths() {
    // The segmentation model named by the pipeline is not in the asset directory.
    let root = "/tmp/assets";
    let path = format!("{}/segmentation.onnx", root);
    let err = model_spec_check("segmentation", "segmentation.onnx", false, &path, 16_000, 5_000, 2_500, 20)
        .unwrap_err();
    assert!(err.contains("segmentation model is missing"));
}
