//! The integer plan of the model-based final pass: which samples each segmentation window and
//! each embedding clip reads, how a segmentation output tensor is laid out, and on which
//! frame of the whole recording a window's frame lands. The model runs and the scores, which
//! are floating point, are not part of it.
use vstd::prelude::*;
use crate::assets::AmbientModelOutputLayout;
use crate::text::{append_vec, concat3, decimal, decimal_exec, from_chars, join};

verus! {

pub open spec fn min_int(a: int, b: int) -> int {
    if a < b {
        a
    } else {
        b
    }
}

pub open spec fn max_int(a: int, b: int) -> int {
    if a > b {
        a
    } else {
        b
    }
}

/// The sample at which a time falls, at this sample rate (the time taken as a `usize`).
pub open spec fn sample_at(ms: u64, rate: usize) -> int {
    ((ms as usize) * rate) / 1000
}

/// The samples that a segmentation window starting at `start_ms` reads: from the start
/// sample (at most the end of the audio) for `length_samples` samples, cut at the end of the
/// audio; the model gets them padded with silence to `length_samples`.
pub fn window_sample_range(samples_len: usize, sample_rate_hz: usize, start_ms: u64, length_samples: usize) -> (r: (usize, usize))
    requires
        (start_ms as usize) * sample_rate_hz <= usize::MAX,
        samples_len + length_samples <= usize::MAX,
    ensures
        r.0 == min_int(sample_at(start_ms, sample_rate_hz), samples_len as int),
        r.1 == min_int(r.0 + length_samples, samples_len as int),
        r.0 <= r.1 <= samples_len,
{
    let ms = start_ms as usize;
    let s = ms * sample_rate_hz / 1000;
    let start_idx = if s < samples_len {
        s
    } else {
        samples_len
    };
    let e = start_idx + length_samples;
    let end_idx = if e < samples_len {
        e
    } else {
        samples_len
    };
    (start_idx, end_idx)
}

/// How an embedding clip is made: the samples `source_start..source_end` of the audio,
/// written at `out_offset` into `out_len` samples of silence.
#[derive(Clone, Copy, Debug, PartialEq, Eq, Structural)]
pub struct ClipPlan {
    pub source_start: usize,
    pub source_end: usize,
    pub out_len: usize,
    pub out_offset: usize,
}

/// The clip of a region: its samples (at least one where the audio has one), cut to the
/// middle `target` samples where it is longer, or centred in `target` samples of silence
/// where it is shorter.
pub open spec fn clip_plan(samples_len: usize, rate: usize, start_ms: u64, end_ms: u64, target: Option<usize>) -> ClipPlan {
    let s = min_int(sample_at(start_ms, rate), samples_len as int);
    let e = min_int(max_int(sample_at(end_ms, rate), s + 1), samples_len as int);
    let n = e - s;
    match target {
        Some(t) => if n > t {
            ClipPlan {
                source_start: (s + (n - t) / 2) as usize,
                source_end: (s + (n - t) / 2 + t) as usize,
                out_len: t,
                out_offset: 0,
            }
        } else if n < t {
            ClipPlan {
                source_start: s as usize,
                source_end: e as usize,
                out_len: t,
                out_offset: ((t - n) / 2) as usize,
            }
        } else {
            ClipPlan { source_start: s as usize, source_end: e as usize, out_len: n as usize, out_offset: 0 }
        },
        None => ClipPlan {
            source_start: s as usize,
            source_end: e as usize,
            out_len: n as usize,
            out_offset: 0,
        },
    }
}

pub fn embedding_clip_plan(
    samples_len: usize,
    sample_rate_hz: usize,
    start_ms: u64,
    end_ms: u64,
    target_samples: Option<usize>,
) -> (r: ClipPlan)
    requires
        (start_ms as usize) * sample_rate_hz <= usize::MAX,
        (end_ms as usize) * sample_rate_hz <= usize::MAX,
        samples_len < usize::MAX,
    ensures
        r == clip_plan(samples_len, sample_rate_hz, start_ms, end_ms, target_samples),
        r.source_start <= r.source_end <= samples_len,
        r.out_offset + (r.source_end - r.source_start) <= r.out_len,
{
    let ms0 = start_ms as usize;
    let s0 = ms0 * sample_rate_hz / 1000;
    let s = if s0 < samples_len {
        s0
    } else {
        samples_len
    };
    let ms1 = end_ms as usize;
    let e0 = ms1 * sample_rate_hz / 1000;
    let e1 = if e0 > s + 1 {
        e0
    } else {
        s + 1
    };
    let e = if e1 < samples_len {
        e1
    } else {
        samples_len
    };
    let n = e - s;
    match target_samples {
        Some(t) => {
            if n > t {
                let off = (n - t) / 2;
                ClipPlan { source_start: s + off, source_end: s + off + t, out_len: t, out_offset: 0 }
            } else if n < t {
                ClipPlan { source_start: s, source_end: e, out_len: t, out_offset: (t - n) / 2 }
            } else {
                ClipPlan { source_start: s, source_end: e, out_len: n, out_offset: 0 }
            }
        },
        None => ClipPlan { source_start: s, source_end: e, out_len: n, out_offset: 0 },
    }
}

/// A list of numbers as `{:?}` writes it: `[1, 2, 3]`.
pub open spec fn debug_list(v: Seq<usize>) -> Seq<char> {
    "["@ + join(v.map_values(|x: usize| decimal(x as nat)), ", "@) + "]"@
}

pub fn debug_list_exec(v: &Vec<usize>) -> (r: String)
    ensures
        r@ == debug_list(v@),
{
    let mut parts: Vec<Vec<char>> = Vec::new();
    for i in 0..v.len()
        invariant
            crate::text::views(parts@) == v@.take(i as int).map_values(|x: usize| decimal(x as nat)),
    {
        let d = decimal_exec(v[i] as u64);
        proof {
            crate::text::lemma_views_push(parts@, d);
        }
        parts.push(d);
        assert(v@.take(i + 1).map_values(|x: usize| decimal(x as nat)) =~= v@.take(i as int).map_values(
            |x: usize| decimal(x as nat),
        ).push(decimal(v@[i as int] as nat)));
    }
    assert(v@.take(v.len() as int) =~= v@);
    let sep = crate::text::to_chars(", ");
    assert(parts@.map_values(|p: Vec<char>| p@) =~= crate::text::views(parts@));
    let body = crate::text::join_vecs(&parts, &sep);
    let mut out = crate::text::to_chars("[");
    append_vec(&mut out, &body);
    append_vec(&mut out, &crate::text::to_chars("]"));
    from_chars(&out)
}

/// The layout of a segmentation output: frames and speaker channels, and whether the data
/// holds all frames of one speaker before the next speaker's (and is to be reordered).
#[derive(Clone, Copy, Debug, PartialEq, Eq, Structural)]
pub struct SegmentationShape {
    pub frames: usize,
    pub speakers: usize,
    pub speakers_first: bool,
}

pub open spec fn shape_of(layout: AmbientModelOutputLayout, shape: Seq<usize>) -> Result<
    SegmentationShape,
    Seq<char>,
> {
    match layout {
        AmbientModelOutputLayout::FramesSpeakers => if shape.len() != 2 {
            Err(
                "Segmentation output expected rank 2 but received shape "@ + debug_list(shape)
                    + "."@,
            )
        } else {
            Ok(SegmentationShape { frames: shape[0], speakers: shape[1], speakers_first: false })
        },
        AmbientModelOutputLayout::BatchFramesSpeakers => if shape.len() == 2 {
            Ok(SegmentationShape { frames: shape[0], speakers: shape[1], speakers_first: false })
        } else if shape.len() != 3 || shape[0] != 1 {
            Err(
                "Segmentation output expected shape [1, frames, speakers] but received "@
                    + debug_list(shape) + "."@,
            )
        } else {
            Ok(SegmentationShape { frames: shape[1], speakers: shape[2], speakers_first: false })
        },
        AmbientModelOutputLayout::BatchSpeakersFrames => if shape.len() != 3 || shape[0] != 1 {
            Err(
                "Segmentation output expected shape [1, speakers, frames] but received "@
                    + debug_list(shape) + "."@,
            )
        } else {
            Ok(SegmentationShape { frames: shape[2], speakers: shape[1], speakers_first: true })
        },
        _ => Err("Segmentation model output layout must be a speaker-activity tensor."@),
    }
}

/// Reads the shape of a segmentation output for the layout the model declares.
pub fn segmentation_shape(layout: AmbientModelOutputLayout, shape: &Vec<usize>) -> (r: Result<
    SegmentationShape,
    String,
>)
    ensures
        match (r, shape_of(layout, shape@)) {
            (Ok(a), Ok(b)) => a == b,
            (Err(m), Err(t)) => m@ == t,
            _ => false,
        },
{
    match layout {
        AmbientModelOutputLayout::FramesSpeakers => {
            if shape.len() != 2 {
                let head = concat3(
                    "Segmentation output expected rank 2 but received shape ",
                    debug_list_exec(shape).as_str(),
                    ".",
                );
                return Err(head);
            }
            Ok(SegmentationShape { frames: shape[0], speakers: shape[1], speakers_first: false })
        },
        AmbientModelOutputLayout::BatchFramesSpeakers => {
            if shape.len() == 2 {
                return Ok(
                    SegmentationShape { frames: shape[0], speakers: shape[1], speakers_first: false },
                );
            }
            if shape.len() != 3 || shape[0] != 1 {
                return Err(
                    concat3(
                        "Segmentation output expected shape [1, frames, speakers] but received ",
                        debug_list_exec(shape).as_str(),
                        ".",
                    ),
                );
            }
            Ok(SegmentationShape { frames: shape[1], speakers: shape[2], speakers_first: false })
        },
        AmbientModelOutputLayout::BatchSpeakersFrames => {
            if shape.len() != 3 || shape[0] != 1 {
                return Err(
                    concat3(
                        "Segmentation output expected shape [1, speakers, frames] but received ",
                        debug_list_exec(shape).as_str(),
                        ".",
                    ),
                );
            }
            Ok(SegmentationShape { frames: shape[2], speakers: shape[1], speakers_first: true })
        },
        _ => Err("Segmentation model output layout must be a speaker-activity tensor.".to_string()),
    }
}

/// Where the value of speaker `speaker` at frame `frame` moves when an output that holds the
/// speakers one after the other is reordered to hold the frames one after the other.
pub fn reordered_index(frame: usize, speaker: usize, frames: usize, speakers: usize) -> (r: (
    usize,
    usize,
))
    requires
        frame < frames,
        speaker < speakers,
        frames * speakers <= usize::MAX,
    ensures
        r.0 == frame * speakers + speaker,
        r.1 == speaker * frames + frame,
        r.0 < frames * speakers,
        r.1 < frames * speakers,
{
    proof {
        assert(frame * speakers + speaker < frames * speakers) by (nonlinear_arith)
            requires
                frame < frames,
                speaker < speakers,
        {
        }
        assert(speaker * frames + frame < frames * speakers) by (nonlinear_arith)
            requires
                frame < frames,
                speaker < speakers,
        {
        }
    }
    (frame * speakers + speaker, speaker * frames + frame)
}

/// The message where a model wants another sample rate than the audio has.
pub open spec fn rate_mismatch_text(kind: Seq<char>, model_rate: usize, audio_rate: usize) -> Seq<char> {
    kind + " model requires "@ + decimal(model_rate as nat) + " Hz audio but received "@ + decimal(
        audio_rate as nat,
    ) + " Hz."@
}

/// A model reads audio at its own sample rate only; `kind` is `Segmentation` or `Embedding`.
pub fn sample_rate_check(kind: &str, model_rate: usize, audio_rate: usize) -> (r: Result<(), String>)
    ensures
        model_rate == audio_rate ==> r is Ok,
        model_rate != audio_rate ==> (r matches Err(m) && m@ == rate_mismatch_text(
            kind@,
            model_rate,
            audio_rate,
        )),
{
    if model_rate == audio_rate {
        return Ok(());
    }
    let mut out = crate::text::to_chars(kind);
    append_vec(&mut out, &crate::text::to_chars(" model requires "));
    append_vec(&mut out, &decimal_exec(model_rate as u64));
    append_vec(&mut out, &crate::text::to_chars(" Hz audio but received "));
    append_vec(&mut out, &decimal_exec(audio_rate as u64));
    append_vec(&mut out, &crate::text::to_chars(" Hz."));
    Err(from_chars(&out))
}

/// The frame grid of a whole recording.
#[derive(Clone, Copy, Debug, PartialEq, Eq, Structural)]
pub struct FramePlan {
    pub audio_duration_ms: u64,
    pub frame_hop_ms: u64,
    pub frame_count: usize,
    pub window_samples: usize,
}

/// The length of the audio in milliseconds (truncated to 64 bits as the pipeline does).
pub open spec fn duration_ms_of(samples_len: usize, rate: usize) -> u64 {
    ((samples_len * 1000) / max_int(rate as int, 1)) as u64
}

pub open spec fn frame_plan(samples_len: usize, rate: usize, window_ms: u64, frame_hop_ms: u64) -> FramePlan {
    let duration = duration_ms_of(samples_len, rate);
    let hop = max_int(frame_hop_ms as int, 1);
    FramePlan {
        audio_duration_ms: duration,
        frame_hop_ms: hop as u64,
        frame_count: (max_int((duration + hop - 1) / hop, 1) as u64) as usize,
        window_samples: max_int(sample_at(window_ms, rate), 1) as usize,
    }
}

/// The frame grid of the recording: its length in milliseconds, the frame hop (at least 1),
/// the number of frames (at least 1) and the samples of one window (at least 1).
pub fn segmentation_frame_plan(samples_len: usize, sample_rate_hz: usize, window_ms: u64, frame_hop_ms: u64) -> (r: FramePlan)
    requires
        duration_ms_of(samples_len, sample_rate_hz) + max_int(frame_hop_ms as int, 1) - 1
            <= u64::MAX,
        (window_ms as usize) * sample_rate_hz <= usize::MAX,
    ensures
        r == frame_plan(samples_len, sample_rate_hz, window_ms, frame_hop_ms),
{
    let rate: u128 = if sample_rate_hz > 1 {
        sample_rate_hz as u128
    } else {
        1
    };
    let product: u128 = samples_len as u128 * 1000;
    assert(product == samples_len * 1000);
    let quotient: u128 = product / rate;
    assert(quotient == (samples_len * 1000) / max_int(sample_rate_hz as int, 1));
    let duration = quotient as u64;
    let hop: u64 = if frame_hop_ms > 1 {
        frame_hop_ms
    } else {
        1
    };
    let frames0 = (duration + (hop - 1)) / hop;
    let frames = if frames0 > 1 {
        frames0
    } else {
        1
    };
    let wms = window_ms as usize;
    let w = wms * sample_rate_hz / 1000;
    let window_samples = if w > 1 {
        w
    } else {
        1
    };
    FramePlan {
        audio_duration_ms: duration,
        frame_hop_ms: hop,
        frame_count: frames as usize,
        window_samples,
    }
}

/// The frame of the whole recording on which frame `frame_index` of the window that starts at
/// `start_ms` lands; the pipeline stops reading a window at the first frame past the end.
pub fn global_frame_index(start_ms: u64, frame_hop_ms: u64, frame_index: usize) -> (r: usize)
    requires
        frame_hop_ms > 0,
    ensures
        r == (if (start_ms / frame_hop_ms) as usize + frame_index > usize::MAX {
            usize::MAX as int
        } else {
            (start_ms / frame_hop_ms) as usize + frame_index
        }),
{
    let base = (start_ms / frame_hop_ms) as usize;
    if base > usize::MAX - frame_index {
        usize::MAX
    } else {
        base + frame_index
    }
}

} // verus!
