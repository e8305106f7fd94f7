use screamer::hardware::{
    classify_family, parse_apple_chip, AppleChip, AppleChipTier, Architecture,
    ComputeBackendPreference, CpuFeatures, MachineFamily, MachineProfile, APPLE_SILICON_MIN_AUDIO_CTX,
    APPLE_SILICON_THREADS, INTEL_MIN_AUDIO_CTX,
};

#[test]
fn parses_apple_chip_tiers() {
    assert_eq!(
        parse_apple_chip("Apple M2 Max"),
        Some(AppleChip {
            generation: Some(2),
            tier: AppleChipTier::Max,
        })
    );
    assert_eq!(
        parse_apple_chip("Apple M4"),
        Some(AppleChip {
            generation: Some(4),
            tier: AppleChipTier::Base,
        })
    );
    assert_eq!(
        parse_apple_chip("Apple M3 Pro"),
        Some(AppleChip {
            generation: Some(3),
            tier: AppleChipTier::Pro,
        })
    );
}

#[test]
fn classifies_intel() {
    assert!(matches!(
        classify_family(
            "Intel(R) Core(TM) i9-9980HK CPU @ 2.40GHz",
            Architecture::X86_64
        ),
        MachineFamily::Intel
    ));
}

#[test]
fn intel_tuning_stays_on_cpu_backend() {
    let profile = MachineProfile {
        brand: "Intel(R) Core(TM) i5-8279U CPU @ 2.40GHz".to_string(),
        architecture: Architecture::X86_64,
        family: MachineFamily::Intel,
        physical_cores: 4,
        logical_cores: 8,
        performance_cores: None,
        efficiency_cores: None,
        translated: false,
        cpu_features: CpuFeatures {
            avx: true,
            avx2: true,
            fma: true,
            f16c: true,
        },
    };

    let tuning = profile.recommended_tuning();

    assert!(matches!(
        tuning.compute_backend,
        ComputeBackendPreference::CpuOnly
    ));
    assert!(!tuning.flash_attn);
    assert_eq!(tuning.n_threads, 4);
    assert_eq!(tuning.adaptive_audio_ctx_min, INTEL_MIN_AUDIO_CTX);
}

#[test]
fn translated_apple_silicon_avoids_gpu_backend() {
    let profile = MachineProfile {
        brand: "Apple M2 Max".to_string(),
        architecture: Architecture::Arm64,
        family: MachineFamily::AppleSilicon(AppleChip {
            generation: Some(2),
            tier: AppleChipTier::Max,
        }),
        physical_cores: 8,
        logical_cores: 12,
        performance_cores: Some(8),
        efficiency_cores: Some(4),
        translated: true,
        cpu_features: CpuFeatures::default(),
    };

    let tuning = profile.recommended_tuning();

    assert!(matches!(
        tuning.compute_backend,
        ComputeBackendPreference::CpuOnly
    ));
    assert!(!tuning.flash_attn);
    assert_eq!(tuning.n_threads, APPLE_SILICON_THREADS);
    assert_eq!(tuning.adaptive_audio_ctx_min, APPLE_SILICON_MIN_AUDIO_CTX);
}
