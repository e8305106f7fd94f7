use screamer::ambient::{AudioLane, SpeakerLabel, TranscriptSegment};
use screamer::diarization::{speech_regions_from_activity, SpeechRegion};
use screamer::regions::{
    assign_missing_cluster_ids, assign_segment_labels, build_candidate_regions,
    smooth_regions, snap_regions_to_speech, CandidateRegion, DEFAULT_SPEECH_SNAP_COLLAR_MS,
};

fn region(start_ms: u64, end_ms: u64, index: usize, cluster_id: Option<usize>) -> CandidateRegion {
    CandidateRegion { start_ms, end_ms, segment_indices: vec![index], cluster_id }
}

fn transcript(start_ms: u64, end_ms: u64, text: &str) -> TranscriptSegment {
    TranscriptSegment {
        lane: AudioLane::Microphone,
        start_ms,
        end_ms,
        speaker_turn_next: false,
        text: text.to_string(),
    }
}

#[test]
fn smoothing_absorbs_short_regions_between_neighbors() {
    let mut regions = vec![region(0, 600, 0, None), region(620, 760, 1, None), region(770, 1_300, 2, None)];

    smooth_regions(&mut regions);

    assert_eq!(regions.len(), 2);
    assert_eq!(regions[0].segment_indices, vec![0, 1]);
}

#[test]
fn short_silence_gaps_are_filled_in_speech_regions() {
    let scores = vec![0.8f32, 0.9, 0.1, 0.85, 0.9];
    let active: Vec<bool> = scores.iter().map(|score| *score >= 0.5).collect();
    let regions = speech_regions_from_activity(active, 20, 40, 40);
    assert_eq!(regions.len(), 1);
    assert_eq!(regions[0].start_ms, 0);
    assert_eq!(regions[0].end_ms, 100);
}

#[test]
fn speech_regions_snap_transcript_boundaries() {
    let mut regions = vec![region(100, 420, 0, None)];
    let speech = vec![SpeechRegion { start_ms: 150, end_ms: 350 }];

    snap_regions_to_speech(&mut regions, &speech);

    assert_eq!(regions[0].start_ms, 100u64.max(150 - DEFAULT_SPEECH_SNAP_COLLAR_MS));
    assert_eq!(regions[0].end_ms, 420u64.min(350 + DEFAULT_SPEECH_SNAP_COLLAR_MS));
}

#[test]
fn smoothing_folds_a_short_region_into_the_next_when_the_previous_is_far() {
    let mut regions = vec![region(0, 600, 0, None), region(1_000, 1_100, 1, None), region(1_150, 2_000, 2, None)];
    smooth_regions(&mut regions);
    assert_eq!(regions.len(), 2);
    assert_eq!(regions[1].start_ms, 1_000);
    assert_eq!(regions[1].end_ms, 2_000);
    assert_eq!(regions[1].segment_indices, vec![1, 2]);
}

#[test]
fn smoothing_keeps_an_isolated_short_region() {
    let mut regions = vec![region(0, 600, 0, None), region(1_000, 1_100, 1, None), region(2_000, 3_000, 2, None)];
    smooth_regions(&mut regions);
    assert_eq!(regions.len(), 3);
}

#[test]
fn smoothing_leaves_a_single_short_region() {
    let mut regions = vec![region(0, 100, 0, None)];
    smooth_regions(&mut regions);
    assert_eq!(regions.len(), 1);
    assert_eq!(regions[0].end_ms, 100);
}

#[test]
fn candidate_regions_skip_blank_segments_and_last_at_least_a_millisecond() {
    let segments = vec![transcript(0, 500, "hello"), transcript(600, 700, "   "), transcript(900, 900, "there")];
    let regions = build_candidate_regions(&segments);
    assert_eq!(regions.len(), 2);
    assert_eq!(regions[0].segment_indices, vec![0]);
    assert_eq!(regions[1].start_ms, 900);
    assert_eq!(regions[1].end_ms, 901);
    assert_eq!(regions[1].segment_indices, vec![2]);
    assert_eq!(regions[1].cluster_id, None);
}

#[test]
fn snapping_without_speech_changes_nothing() {
    let mut regions = vec![region(100, 100, 0, None)];
    snap_regions_to_speech(&mut regions, &[]);
    assert_eq!(regions[0].start_ms, 100);
    assert_eq!(regions[0].end_ms, 100);
}

#[test]
fn snapping_stretches_over_nearby_speech_without_overlap() {
    let mut regions = vec![region(1_000, 1_200, 0, None)];
    let speech = vec![SpeechRegion { start_ms: 1_300, end_ms: 1_500 }];
    snap_regions_to_speech(&mut regions, &speech);
    assert_eq!(regions[0].start_ms, 1_000);
    assert_eq!(regions[0].end_ms, 1_500);
}

#[test]
fn snapping_ignores_far_speech_and_keeps_regions_non_empty() {
    let mut regions = vec![region(5_000, 5_000, 0, None)];
    let speech = vec![SpeechRegion { start_ms: 0, end_ms: 100 }];
    snap_regions_to_speech(&mut regions, &speech);
    assert_eq!(regions[0].start_ms, 5_000);
    assert_eq!(regions[0].end_ms, 5_001);
}

#[test]
fn regions_without_clusters_all_join_cluster_zero() {
    let mut regions = vec![region(0, 100, 0, None), region(200, 300, 1, None)];
    assign_missing_cluster_ids(&mut regions);
    assert_eq!(regions[0].cluster_id, Some(0));
    assert_eq!(regions[1].cluster_id, Some(0));
}

#[test]
fn a_region_without_cluster_takes_the_nearest_cluster() {
    let mut regions = vec![
        region(0, 1_000, 0, Some(4)),
        region(1_100, 1_300, 1, None),
        region(5_000, 6_000, 2, Some(7)),
        region(4_000, 4_400, 3, None),
    ];
    assign_missing_cluster_ids(&mut regions);
    assert_eq!(regions[1].cluster_id, Some(4));
    assert_eq!(regions[3].cluster_id, Some(7));
    assert_eq!(regions[0].cluster_id, Some(4));
}

#[test]
fn segments_take_the_speaker_of_the_region_they_overlap_most() {
    let regions = vec![region(0, 1_000, 0, Some(9)), region(1_000, 2_000, 1, Some(3)), region(2_500, 3_000, 2, Some(9))];
    let segments = vec![
        transcript(100, 900, "a"),
        transcript(1_100, 1_900, "b"),
        transcript(2_100, 2_200, "c"),
        transcript(2_600, 2_900, "d"),
    ];
    let labels = assign_segment_labels(&segments, &regions);
    // Cluster 9 starts first and is labelled S1; cluster 3 is S2.
    assert_eq!(labels, vec![SpeakerLabel::S1, SpeakerLabel::S2, SpeakerLabel::S1, SpeakerLabel::S1]);
}

#[test]
fn segments_with_no_clustered_region_get_the_first_speaker() {
    let regions: Vec<CandidateRegion> = Vec::new();
    let labels = assign_segment_labels(&[transcript(0, 10, "x")], &regions);
    assert_eq!(labels, vec![SpeakerLabel::S1]);
}

#[test]
fn clusters_starting_together_are_ordered_by_id() {
    let regions = vec![region(0, 500, 0, Some(5)), region(0, 400, 1, Some(2))];
    let segments = vec![transcript(0, 500, "a")];
    let labels = assign_segment_labels(&segments, &regions);
    // The segment overlaps cluster 5's region the most; cluster 2 comes first on the tie.
    assert_eq!(labels, vec![SpeakerLabel::S2]);
}
