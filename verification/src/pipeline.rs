//! Folding diarized chunks of a live session into its transcript.
use vstd::prelude::*;
use crate::ambient::{
    merge, merge_segment, seg_views, AudioLane, CanonicalSegment, DiarizedSegment, SegmentView,
    SpeakerLabel,
};
use crate::text::{chars_eq, from_chars, to_chars, trim, trimmed, CharClass};

verus! {

/// How far a live session's audio has been processed.
pub struct ProcessState {
    pub processed_until: usize,
    pub next_segment_id: u64,
}

impl Default for ProcessState {
    fn default() -> (r: Self)
        ensures
            r.processed_until == 0,
            r.next_segment_id == 1,
    {
        ProcessState { processed_until: 0, next_segment_id: 1 }
    }
}

pub ghost struct DiarizedView {
    pub lane: AudioLane,
    pub speaker: SpeakerLabel,
    pub start_ms: u64,
    pub end_ms: u64,
    pub text: Seq<char>,
    pub force_new: bool,
}

pub open spec fn diarized_views(v: Seq<DiarizedSegment>) -> Seq<DiarizedView> {
    v.map_values(
        |d: DiarizedSegment|
            DiarizedView {
                lane: d.lane,
                speaker: d.speaker,
                start_ms: d.start_ms,
                end_ms: d.end_ms,
                text: d.text@,
                force_new: d.force_new,
            },
    )
}

/// The segments, the next id and whether anything changed after folding in diarized
/// segments: each is trimmed, numbered with the next id and merged; a new segment takes the
/// id, and a new or altered last segment counts as a change.
pub open spec fn integrate(segs: Seq<SegmentView>, ds: Seq<DiarizedView>, next_id: u64) -> (
    Seq<SegmentView>,
    u64,
    bool,
)
    decreases ds.len(),
{
    if ds.len() == 0 {
        (segs, next_id, false)
    } else {
        let (s0, id0, ch0) = integrate(segs, ds.drop_last(), next_id);
        let d = ds.last();
        let cand = SegmentView {
            id: id0,
            lane: d.lane,
            speaker: d.speaker,
            start_ms: d.start_ms,
            end_ms: d.end_ms,
            text: trim(d.text),
        };
        let (s1, ret) = merge(s0, cand, d.force_new);
        if ret is Some {
            if s1.len() > s0.len() {
                (s1, (id0 + 1) as u64, true)
            } else if s1.len() > 0 && (s0.len() == 0 || s1.last() != s0.last()) {
                (s1, id0, true)
            } else {
                (s1, id0, ch0)
            }
        } else {
            (s1, id0, ch0)
        }
    }
}

pub proof fn lemma_integrate_id_bound(segs: Seq<SegmentView>, ds: Seq<DiarizedView>, next_id: u64)
    requires
        next_id + ds.len() <= u64::MAX,
    ensures
        next_id <= integrate(segs, ds, next_id).1 <= next_id + ds.len(),
    decreases ds.len(),
{
    if ds.len() > 0 {
        lemma_integrate_id_bound(segs, ds.drop_last(), next_id);
    }
}

/// Folding diarized segments into a transcript keeps every segment but the last, adds at
/// most one segment for each diarized one, spends one new id for each segment it adds, and
/// reports no change only where the transcript is as it was.
pub proof fn lemma_integrate_shape(segs: Seq<SegmentView>, ds: Seq<DiarizedView>, next_id: u64)
    requires
        next_id + ds.len() <= u64::MAX,
    ensures
        ({
            let (after, id, changed) = integrate(segs, ds, next_id);
            &&& segs.len() <= after.len() <= segs.len() + ds.len()
            &&& id - next_id == after.len() - segs.len()
            &&& forall|k: int| 0 <= k < segs.len() - 1 ==> after[k] == segs[k]
            &&& !changed ==> after == segs
        }),
    decreases ds.len(),
{
    if ds.len() > 0 {
        lemma_integrate_shape(segs, ds.drop_last(), next_id);
        let (s0, id0, ch0) = integrate(segs, ds.drop_last(), next_id);
        let d = ds.last();
        let cand = SegmentView {
            id: id0,
            lane: d.lane,
            speaker: d.speaker,
            start_ms: d.start_ms,
            end_ms: d.end_ms,
            text: trim(d.text),
        };
        crate::ambient::lemma_merge_shape(s0, cand, d.force_new);
        let (s1, ret) = merge(s0, cand, d.force_new);
        if s1.len() == s0.len() && (s1.len() == 0 || (s0.len() > 0 && s1.last() == s0.last())) {
            assert(s1 =~= s0);
        }
    }
}

pub fn same_segment(a: &CanonicalSegment, b: &CanonicalSegment) -> (r: bool)
    ensures
        r == (a@ == b@),
{
    let at = to_chars(a.text.as_str());
    let bt = to_chars(b.text.as_str());
    a.id == b.id && a.lane == b.lane && a.speaker == b.speaker && a.start_ms == b.start_ms
        && a.end_ms == b.end_ms && chars_eq(&at, &bt)
}

#[verifier::spinoff_prover]
#[verifier::rlimit(40)]
pub fn integrate_diarized_segments(
    segments: &mut Vec<CanonicalSegment>,
    diarized: &[DiarizedSegment],
    next_segment_id: &mut u64,
) -> (changed: bool)
    requires
        *old(next_segment_id) + diarized@.len() <= u64::MAX,
    ensures
        (seg_views(final(segments)@), *final(next_segment_id), changed) == integrate(
            seg_views(old(segments)@),
            diarized_views(diarized@),
            *old(next_segment_id),
        ),
{
    let ghost dv = diarized_views(diarized@);
    let ghost s_start = seg_views(segments@);
    let ghost id_start = *next_segment_id;
    let mut changed = false;
    for i in 0..diarized.len()
        invariant
            dv == diarized_views(diarized@),
            id_start + diarized@.len() <= u64::MAX,
            (seg_views(segments@), *next_segment_id, changed) == integrate(
                s_start,
                dv.take(i as int),
                id_start,
            ),
    {
        assert(dv.take(i + 1).drop_last() =~= dv.take(i as int));
        assert(dv.take(i + 1).last() == dv[i as int]);
        proof {
            lemma_integrate_id_bound(s_start, dv.take(i as int), id_start);
        }
        let d = &diarized[i];
        let tc = to_chars(d.text.as_str());
        let tt = trimmed(&tc, CharClass::Whitespace);
        let candidate = CanonicalSegment {
            id: *next_segment_id,
            lane: d.lane,
            speaker: d.speaker,
            start_ms: d.start_ms,
            end_ms: d.end_ms,
            text: from_chars(&tt),
        };
        let len_before = segments.len();
        let tail_before = if len_before > 0 {
            Some(segments[len_before - 1].duplicate())
        } else {
            None
        };
        if merge_segment(segments, candidate, d.force_new).is_some() {
            if segments.len() > len_before {
                *next_segment_id = *next_segment_id + 1;
                changed = true;
            } else if segments.len() > 0 {
                match &tail_before {
                    Some(t) => {
                        if !same_segment(&segments[segments.len() - 1], t) {
                            changed = true;
                        }
                    },
                    None => {
                        changed = true;
                    },
                }
            }
        }
    }
    assert(dv.take(diarized.len() as int) =~= dv);
    changed
}

pub const TARGET_SAMPLE_RATE: usize = 16_000;
pub const MIN_CHUNK_PROCESS_SAMPLES: usize = 32_000;

/// The time of a sample offset at the target sample rate, in whole milliseconds.
pub fn samples_to_ms(samples: usize) -> (r: u64)
    requires
        samples * 1000 <= u64::MAX,
    ensures
        r == samples * 1000 / 16_000,
{
    (samples as u64 * 1_000) / 16_000
}

/// The chunk length and the step between chunks of a live session: the step is at least the
/// fewest samples worth processing.
pub fn chunk_schedule(config: &crate::ambient::AmbientSessionConfig) -> (r: (usize, usize))
    requires
        (config.chunk_seconds as usize) * TARGET_SAMPLE_RATE <= usize::MAX,
        (config.overlap_seconds as usize) * TARGET_SAMPLE_RATE <= usize::MAX,
    ensures
        r.0 == (config.chunk_seconds as usize) * TARGET_SAMPLE_RATE,
        r.1 == if crate::ambient::chunk_step(config.chunk_seconds, config.overlap_seconds, TARGET_SAMPLE_RATE)
            >= MIN_CHUNK_PROCESS_SAMPLES {
            crate::ambient::chunk_step(config.chunk_seconds, config.overlap_seconds, TARGET_SAMPLE_RATE)
        } else {
            MIN_CHUNK_PROCESS_SAMPLES as int
        },
{
    let chunk_len = crate::ambient::chunk_len_samples(config.chunk_seconds, TARGET_SAMPLE_RATE);
    let step = crate::ambient::chunk_step_samples(
        config.chunk_seconds,
        config.overlap_seconds,
        TARGET_SAMPLE_RATE,
    );
    (chunk_len, if step >= MIN_CHUNK_PROCESS_SAMPLES {
        step
    } else {
        MIN_CHUNK_PROCESS_SAMPLES
    })
}

/// The next chunk of a live session to transcribe, once enough new audio has come: it
/// ends one step past what was processed (at most at the end of the audio) and reaches
/// back one chunk length.
pub fn next_chunk_window(processed_until: usize, samples_len: usize, chunk_len: usize, step: usize) -> (r:
    Option<(usize, usize)>)
    requires
        processed_until + step <= usize::MAX,
    ensures
        (if samples_len >= processed_until {
            samples_len - processed_until
        } else {
            0
        }) < MIN_CHUNK_PROCESS_SAMPLES <==> r is None,
        r matches Some((start, end)) ==> {
            &&& end == if processed_until + step <= samples_len {
                processed_until + step
            } else {
                samples_len as int
            }
            &&& start == if end >= chunk_len {
                end - chunk_len
            } else {
                0
            }
        },
{
    let fresh = if samples_len >= processed_until {
        samples_len - processed_until
    } else {
        0
    };
    if fresh < MIN_CHUNK_PROCESS_SAMPLES {
        return None;
    }
    let end = if processed_until + step <= samples_len {
        processed_until + step
    } else {
        samples_len
    };
    let start = if end >= chunk_len {
        end - chunk_len
    } else {
        0
    };
    Some((start, end))
}

/// A segment as the Whisper decoder reports it.
pub struct DecodedSegment {
    pub start_ms: u64,
    pub end_ms: u64,
    pub speaker_turn_next: bool,
    pub text: String,
}

/// The transcript segments of a decoded chunk on a lane: the decoder's segments; or, when
/// it gave none but some text, that text trimmed as one segment over the whole chunk (at
/// least 1 ms).
pub fn transcript_segments_from_decode(
    lane: AudioLane,
    samples_len: usize,
    decoded: &[DecodedSegment],
    text: &str,
) -> (r: Vec<crate::ambient::TranscriptSegment>)
    requires
        samples_len * 1000 <= u64::MAX,
    ensures
        decoded@.len() > 0 ==> r@.len() == decoded@.len() && forall|k: int|
            0 <= k < r@.len() ==> {
                &&& (#[trigger] r@[k]).lane == lane
                &&& r@[k].start_ms == decoded@[k].start_ms
                &&& r@[k].end_ms == decoded@[k].end_ms
                &&& r@[k].speaker_turn_next == decoded@[k].speaker_turn_next
                &&& r@[k].text@ == decoded@[k].text@
            },
        decoded@.len() == 0 && trim(text@).len() == 0 ==> r@.len() == 0,
        decoded@.len() == 0 && trim(text@).len() > 0 ==> r@.len() == 1 && r@[0].lane == lane
            && r@[0].start_ms == 0 && r@[0].end_ms == (if samples_len * 1000 / 16_000 >= 1 {
            samples_len * 1000 / 16_000
        } else {
            1
        }) && !r@[0].speaker_turn_next && r@[0].text@ == trim(text@),
{
    let mut out: Vec<crate::ambient::TranscriptSegment> = Vec::new();
    for i in 0..decoded.len()
        invariant
            out@.len() == i,
            forall|k: int|
                0 <= k < i ==> {
                    &&& (#[trigger] out@[k]).lane == lane
                    &&& out@[k].start_ms == decoded@[k].start_ms
                    &&& out@[k].end_ms == decoded@[k].end_ms
                    &&& out@[k].speaker_turn_next == decoded@[k].speaker_turn_next
                    &&& out@[k].text@ == decoded@[k].text@
                },
    {
        out.push(
            crate::ambient::TranscriptSegment {
                lane,
                start_ms: decoded[i].start_ms,
                end_ms: decoded[i].end_ms,
                speaker_turn_next: decoded[i].speaker_turn_next,
                text: decoded[i].text.clone(),
            },
        );
    }
    if out.len() == 0 {
        let c = to_chars(text);
        let t = trimmed(&c, CharClass::Whitespace);
        if t.len() > 0 {
            let ms = samples_to_ms(samples_len);
            out.push(
                crate::ambient::TranscriptSegment {
                    lane,
                    start_ms: 0,
                    end_ms: if ms >= 1 {
                        ms
                    } else {
                        1
                    },
                    speaker_turn_next: false,
                    text: from_chars(&t),
                },
            );
        }
    }
    out
}

} // verus!
