use screamer::assets::AmbientModelOutputLayout;
use screamer::model_plan::{
    embedding_clip_plan, global_frame_index, reordered_index, sample_rate_check,
    segmentation_frame_plan, segmentation_shape, window_sample_range, ClipPlan, SegmentationShape,
};

#[test]
fn windows_read_their_samples_and_stop_at_the_end() {
    assert_eq!(window_sample_range(16_000, 16_000, 500, 8_000), (8_000, 16_000));
    assert_eq!(window_sample_range(16_000, 16_000, 2_000, 100), (16_000, 16_000));
    assert_eq!(window_sample_range(100, 16_000, 0, 50), (0, 50));
}

#[test]
fn embedding_clips_are_cut_or_padded_around_the_middle() {
    assert_eq!(
        embedding_clip_plan(32_000, 16_000, 0, 1_000, Some(8_000)),
        ClipPlan { source_start: 4_000, source_end: 12_000, out_len: 8_000, out_offset: 0 }
    );
    assert_eq!(
        embedding_clip_plan(32_000, 16_000, 0, 250, Some(8_000)),
        ClipPlan { source_start: 0, source_end: 4_000, out_len: 8_000, out_offset: 2_000 }
    );
    assert_eq!(
        embedding_clip_plan(32_000, 16_000, 0, 250, None),
        ClipPlan { source_start: 0, source_end: 4_000, out_len: 4_000, out_offset: 0 }
    );
    // A region past the end of the audio reads nothing.
    assert_eq!(
        embedding_clip_plan(100, 16_000, 1_000, 2_000, None),
        ClipPlan { source_start: 100, source_end: 100, out_len: 0, out_offset: 0 }
    );
    assert_eq!(
        embedding_clip_plan(100, 16_000, 1_000, 2_000, Some(10)),
        ClipPlan { source_start: 100, source_end: 100, out_len: 10, out_offset: 5 }
    );
    // A region of no length still reads one sample.
    assert_eq!(
        embedding_clip_plan(100, 1_000, 10, 10, None),
        ClipPlan { source_start: 10, source_end: 11, out_len: 1, out_offset: 0 }
    );
}

#[test]
fn segmentation_shapes() {
    let shape = |v: &[usize]| v.to_vec();
    assert_eq!(
        segmentation_shape(AmbientModelOutputLayout::FramesSpeakers, &shape(&[5, 3])),
        Ok(SegmentationShape { frames: 5, speakers: 3, speakers_first: false })
    );
    assert_eq!(
        segmentation_shape(AmbientModelOutputLayout::FramesSpeakers, &shape(&[1, 5, 3])),
        Err(format!("Segmentation output expected rank 2 but received shape {:?}.", [1usize, 5, 3]))
    );
    assert_eq!(
        segmentation_shape(AmbientModelOutputLayout::BatchFramesSpeakers, &shape(&[1, 5, 3])),
        Ok(SegmentationShape { frames: 5, speakers: 3, speakers_first: false })
    );
    assert_eq!(
        segmentation_shape(AmbientModelOutputLayout::BatchFramesSpeakers, &shape(&[5, 3])),
        Ok(SegmentationShape { frames: 5, speakers: 3, speakers_first: false })
    );
    assert_eq!(
        segmentation_shape(AmbientModelOutputLayout::BatchFramesSpeakers, &shape(&[2, 5, 3])),
        Err("Segmentation output expected shape [1, frames, speakers] but received [2, 5, 3].".to_string())
    );
    assert_eq!(
        segmentation_shape(AmbientModelOutputLayout::BatchSpeakersFrames, &shape(&[1, 3, 5])),
        Ok(SegmentationShape { frames: 5, speakers: 3, speakers_first: true })
    );
    assert_eq!(
        segmentation_shape(AmbientModelOutputLayout::BatchSpeakersFrames, &shape(&[])),
        Err("Segmentation output expected shape [1, speakers, frames] but received [].".to_string())
    );
    assert_eq!(
        segmentation_shape(AmbientModelOutputLayout::EmbeddingVector, &shape(&[1, 3, 5])),
        Err("Segmentation model output layout must be a speaker-activity tensor.".to_string())
    );
    assert_eq!(reordered_index(1, 2, 4, 3), (5, 9));
}

#[test]
fn frame_grid_of_a_recording() {
    assert_eq!(sample_rate_check("Segmentation", 16_000, 16_000), Ok(()));
    assert_eq!(
        sample_rate_check("Embedding", 16_000, 44_100),
        Err("Embedding model requires 16000 Hz audio but received 44100 Hz.".to_string())
    );

    let plan = segmentation_frame_plan(160_000, 16_000, 5_000, 20);
    assert_eq!(plan.audio_duration_ms, 10_000);
    assert_eq!(plan.frame_hop_ms, 20);
    assert_eq!(plan.frame_count, 500);
    assert_eq!(plan.window_samples, 80_000);

    let plan = segmentation_frame_plan(0, 16_000, 5_000, 0);
    assert_eq!(plan.audio_duration_ms, 0);
    assert_eq!(plan.frame_hop_ms, 1);
    assert_eq!(plan.frame_count, 1);

    let plan = segmentation_frame_plan(100, 0, 5_000, 20);
    assert_eq!(plan.audio_duration_ms, 100_000);
    assert_eq!(plan.frame_count, 5_000);
    assert_eq!(plan.window_samples, 1);

    assert_eq!(global_frame_index(5_000, 20, 3), 253);
    assert_eq!(global_frame_index(u64::MAX, 1, usize::MAX), usize::MAX);
}
