use screamer::ambient::{AudioLane, CanonicalSegment, SpeakerLabel};
use screamer::hardware::{
    AppleChip, AppleChipTier, Architecture, CpuFeatures, MachineFamily, MachineProfile,
};
use screamer::eval::{
    chip_label, plain_transcript, unique_reference_speaker_count,
    best_overlap_assignment, boundary_matches, normalized_words, predicted_speakers,
    reference_speakers, speaker_time_counts, turn_boundary_counts,
    word_edit_distance, word_error_counts, ReferenceTurn,
};

fn segment(start_ms: u64, end_ms: u64, speaker: SpeakerLabel) -> CanonicalSegment {
    CanonicalSegment {
        id: 1,
        lane: AudioLane::Microphone,
        speaker,
        start_ms,
        end_ms,
        text: "hello".to_string(),
    }
}

fn turn(start_ms: u64, end_ms: u64, speaker: &str) -> ReferenceTurn {
    ReferenceTurn { start_ms, end_ms, speaker: speaker.to_string() }
}

fn words(text: &str) -> Vec<Vec<char>> {
    text.split_whitespace().map(|w| w.chars().collect()).collect()
}

/// The F1 score of boundary matching, from the counts.
fn f1(matches: usize, reference: usize, predicted: usize) -> f64 {
    if reference == 0 && predicted == 0 {
        return 1.0;
    }
    let precision = if predicted > 0 { matches as f64 / predicted as f64 } else { 0.0 };
    let recall = if reference == 0 { 1.0 } else { matches as f64 / reference as f64 };
    if precision + recall == 0.0 {
        0.0
    } else {
        2.0 * precision * recall / (precision + recall)
    }
}

#[test]
fn turn_boundary_f1_matches_identical_turns() {
    let reference = vec![turn(0, 1_000, "A"), turn(1_000, 2_000, "B")];
    let predicted = vec![segment(0, 1_000, SpeakerLabel::S1), segment(1_000, 2_000, SpeakerLabel::S2)];

    let (matches, reference_count, predicted_count) = turn_boundary_counts(&reference, &predicted, 500);
    assert_eq!(f1(matches, reference_count, predicted_count), 1.0);
}

#[test]
fn boundary_matching_is_greedy_and_takes_each_reference_once() {
    assert_eq!(boundary_matches(&vec![1_000, 2_000], &vec![1_100, 1_050, 2_400], 500), 2);
    assert_eq!(boundary_matches(&vec![1_000], &vec![1_100, 1_050], 500), 1);
    assert_eq!(boundary_matches(&vec![1_000], &vec![1_600], 500), 0);
    assert_eq!(boundary_matches(&vec![], &vec![1_600], 500), 0);
}

#[test]
fn boundary_counts_skip_the_first_turn() {
    let reference = vec![turn(0, 1_000, "A"), turn(1_000, 2_000, "B"), turn(2_000, 3_000, "A")];
    let predicted = vec![segment(0, 3_000, SpeakerLabel::S1)];
    assert_eq!(turn_boundary_counts(&reference, &predicted, 500), (0, 2, 0));
    assert_eq!(turn_boundary_counts(&[], &[], 500), (0, 0, 0));
}

#[test]
fn edit_distance_counts_word_edits() {
    assert_eq!(word_edit_distance(&words("the cat sat"), &words("the cat sat")), 0);
    assert_eq!(word_edit_distance(&words("the cat sat"), &words("the dog sat")), 1);
    assert_eq!(word_edit_distance(&words("the cat sat"), &words("cat sat down")), 2);
    assert_eq!(word_edit_distance(&words(""), &words("a b c")), 3);
    assert_eq!(word_edit_distance(&words("kitten sitting on mat"), &words("")), 4);
}

#[test]
fn word_error_counts_normalize_case_and_punctuation() {
    assert_eq!(word_error_counts("Hello, World!", "hello world"), Some((0, 2)));
    assert_eq!(word_error_counts("It's a test.", "its a test"), Some((1, 3)));
    assert_eq!(word_error_counts("", "anything here"), Some((2, 0)));
    assert_eq!(
        normalized_words("  ¿Qué PASA? -- ok "),
        vec!["qué".chars().collect::<Vec<char>>(), "pasa".chars().collect(), "ok".chars().collect()]
    );
}

#[test]
fn best_assignment_allows_label_permutation() {
    let overlaps = vec![vec![0u64, 1_000], vec![1_000, 0]];
    let mut used = vec![false, false];
    assert_eq!(best_overlap_assignment(&overlaps, 0, 0, &mut used), 2_000);
    assert_eq!(used, vec![false, false]);
}

#[test]
fn best_assignment_pairs_each_column_once() {
    let overlaps = vec![vec![500u64, 400], vec![450, 10], vec![5, 5]];
    let mut used = vec![false, false];
    assert_eq!(best_overlap_assignment(&overlaps, 0, 7, &mut used), 7 + 400 + 450);
    let mut none: Vec<bool> = Vec::new();
    assert_eq!(best_overlap_assignment(&overlaps, 0, 3, &mut none), 3);
}

#[test]
fn speaker_time_accuracy_allows_label_permutation() {
    let reference = vec![turn(0, 1_000, "Alice"), turn(1_000, 2_000, "Bob")];
    let predicted = vec![segment(0, 1_000, SpeakerLabel::S2), segment(1_000, 2_000, SpeakerLabel::S1)];

    let (best, total) = speaker_time_counts(&reference, &predicted).unwrap();
    assert_eq!(best as f64 / total as f64, 1.0);
}

#[test]
fn speaker_time_counts_need_turns_and_segments() {
    assert_eq!(speaker_time_counts(&[], &[segment(0, 10, SpeakerLabel::S1)]), None);
    assert_eq!(speaker_time_counts(&[turn(0, 10, "A")], &[]), None);
    let reference = vec![turn(0, 1_000, "A"), turn(1_000, 2_000, "A")];
    let predicted = vec![segment(0, 1_500, SpeakerLabel::S1), segment(1_500, 2_000, SpeakerLabel::S2)];
    assert_eq!(speaker_time_counts(&reference, &predicted), Some((1_500, 2_000)));
    assert_eq!(speaker_time_counts(&[turn(5, 5, "A")], &predicted), Some((0, 1)));
}

#[test]
fn speakers_are_listed_once_in_order() {
    let reference = vec![turn(0, 1, "bob"), turn(1, 2, "Alice"), turn(2, 3, "bob"), turn(3, 4, "al")];
    let names: Vec<String> = reference_speakers(&reference).into_iter().map(|c| c.into_iter().collect()).collect();
    assert_eq!(names, vec!["Alice".to_string(), "al".to_string(), "bob".to_string()]);
    let predicted = vec![
        segment(0, 1, SpeakerLabel::S3),
        segment(1, 2, SpeakerLabel::S1),
        segment(2, 3, SpeakerLabel::S3),
        segment(3, 4, SpeakerLabel::S1),
    ];
    assert_eq!(predicted_speakers(&predicted), vec![SpeakerLabel::S1, SpeakerLabel::S3]);
}

#[test]
fn reference_speakers_are_counted_once() {
    let turns = vec![turn(0, 1, "B"), turn(1, 2, "A"), turn(2, 3, "B"), turn(3, 4, "C")];
    assert_eq!(unique_reference_speaker_count(&turns), 3);
    assert_eq!(unique_reference_speaker_count(&[]), 0);
}

#[test]
fn plain_transcript_joins_trimmed_texts() {
    let mut a = segment(0, 1, SpeakerLabel::S1);
    a.text = "  hello ".to_string();
    let mut b = segment(1, 2, SpeakerLabel::S2);
    b.text = "   ".to_string();
    let mut c = segment(2, 3, SpeakerLabel::S1);
    c.text = "world".to_string();
    assert_eq!(plain_transcript(&[a, b, c]), "hello world");
    assert_eq!(plain_transcript(&[]), "");
}

fn machine(family: MachineFamily) -> MachineProfile {
    MachineProfile {
        brand: String::new(),
        architecture: Architecture::Arm64,
        family,
        physical_cores: 8,
        logical_cores: 8,
        performance_cores: None,
        efficiency_cores: None,
        translated: false,
        cpu_features: CpuFeatures { avx: false, avx2: false, fma: false, f16c: false },
    }
}

#[test]
fn chip_labels() {
    let m3 = machine(MachineFamily::AppleSilicon(AppleChip { generation: Some(3), tier: AppleChipTier::Pro }));
    assert_eq!(chip_label(&m3), "Apple M3 Pro");
    let unknown = machine(MachineFamily::AppleSilicon(AppleChip { generation: None, tier: AppleChipTier::Ultra }));
    assert_eq!(chip_label(&unknown), "Apple Ultra");
    assert_eq!(chip_label(&machine(MachineFamily::Intel)), "Intel");
    assert_eq!(chip_label(&machine(MachineFamily::OtherArm)), "Other ARM");
    assert_eq!(chip_label(&machine(MachineFamily::Other)), "Other");
}
