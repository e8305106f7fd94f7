//! Integer building blocks of speaker diarization: voice activity runs, analysis windows
//! and the assembly of labelled transcript segments.
use vstd::prelude::*;
use crate::ambient::{
    merge, merge_segment, seg_views, speaker_index, CanonicalSegment, SegmentView, SpeakerLabel,
    TranscriptSegment,
};
use crate::text::{append_vec, from_chars, to_chars, trim, trimmed, CharClass};
use crate::model_plan::{min_int, sample_at};

verus! {

/// `a_end.min(b_end).saturating_sub(a_start.max(b_start))`: how long two spans overlap.
pub open spec fn overlap(a_start: u64, a_end: u64, b_start: u64, b_end: u64) -> u64 {
    let e = if a_end < b_end {
        a_end
    } else {
        b_end
    };
    let s = if a_start > b_start {
        a_start
    } else {
        b_start
    };
    if e >= s {
        (e - s) as u64
    } else {
        0
    }
}

pub fn overlap_ms(a_start: u64, a_end: u64, b_start: u64, b_end: u64) -> (r: u64)
    ensures
        r == overlap(a_start, a_end, b_start, b_end),
{
    let e = if a_end < b_end {
        a_end
    } else {
        b_end
    };
    let s = if a_start > b_start {
        a_start
    } else {
        b_start
    };
    if e >= s {
        e - s
    } else {
        0
    }
}

/// Frame `i` lies in a run of at most `max_gap` silent frames that has speech on both
/// sides.
pub open spec fn in_short_gap(a: Seq<bool>, max_gap: int, i: int) -> bool {
    exists|l: int, h: int|
        #![trigger a[l - 1], a[h]]
        0 < l <= i < h < a.len() && h - l <= max_gap && a[l - 1] && a[h] && forall|k: int|
            l <= k < h ==> !a[k]
}

/// `fill_short_silence_gaps`: a frame is active when it was, or when it lies in a short
/// silence between active frames.
pub open spec fn gaps_filled(a: Seq<bool>, max_gap: int) -> Seq<bool> {
    Seq::new(a.len(), |i: int| a[i] || in_short_gap(a, max_gap, i))
}

pub fn fill_short_silence_gaps(active: &mut Vec<bool>, max_gap_frames: usize)
    ensures
        final(active)@ == gaps_filled(old(active)@, max_gap_frames as int),
{
    let ghost a = active@;
    let len = active.len();
    let mut index: usize = 0;
    while index < len
        invariant
            len == a.len() == active@.len(),
            index <= len,
            forall|j: int| 0 <= j < index ==> active@[j] == gaps_filled(a, max_gap_frames as int)[j],
            forall|j: int| index <= j < len ==> active@[j] == a[j],
            index == 0 || index == len || a[index as int] || a[index - 1],
        decreases len - index,
    {
        if active[index] {
            assert(active@[index as int] == gaps_filled(a, max_gap_frames as int)[index as int]);
            index = index + 1;
            continue;
        }
        let gap_start = index;
        while index < len && !active[index]
            invariant
                len == a.len() == active@.len(),
                gap_start <= index <= len,
                forall|j: int| 0 <= j < gap_start ==> active@[j] == gaps_filled(a, max_gap_frames as int)[j],
                forall|j: int| gap_start <= j < len ==> active@[j] == a[j],
                forall|j: int| gap_start <= j < index ==> !a[j],
            decreases len - index,
        {
            index = index + 1;
        }
        let gap_end = index;
        proof {
            assert(gap_start == 0 || a[gap_start - 1]);
            assert(gap_end == len || a[gap_end as int]);
        }
        let gap_len = gap_end - gap_start;
        let has_before = gap_start > 0 && active[gap_start - 1];
        let has_after = gap_end < len && active[gap_end];
        let fill = gap_len > 0 && gap_len <= max_gap_frames && has_before && has_after;
        proof {
            assert forall|j: int| gap_start <= j < gap_end implies gaps_filled(
                a,
                max_gap_frames as int,
            )[j] == fill by {
                lemma_gap_fill(a, max_gap_frames as int, gap_start as int, gap_end as int, j);
            }
        }
        if fill {
            let mut k = gap_start;
            while k < gap_end
                invariant
                    len == a.len() == active@.len(),
                    gap_start <= k <= gap_end <= len,
                    forall|j: int| 0 <= j < gap_start ==> active@[j] == gaps_filled(a, max_gap_frames as int)[j],
                    forall|j: int| gap_start <= j < k ==> active@[j] == true,
                    forall|j: int| k <= j < len ==> active@[j] == a[j],
                decreases gap_end - k,
            {
                active.set(k, true);
                k = k + 1;
            }
        }
    }
    assert(active@ =~= gaps_filled(a, max_gap_frames as int));
}

/// Inside a maximal silent run from `gs` to `ge`, a frame is filled exactly when the run is
/// short and has speech on both sides.
pub proof fn lemma_gap_fill(a: Seq<bool>, max_gap: int, gs: int, ge: int, j: int)
    requires
        0 <= gs <= j < ge <= a.len(),
        forall|k: int| gs <= k < ge ==> !a[k],
        gs == 0 || a[gs - 1],
        ge == a.len() || a[ge],
    ensures
        gaps_filled(a, max_gap)[j] == (ge - gs <= max_gap && gs > 0 && ge < a.len()),
{
    if ge - gs <= max_gap && gs > 0 && ge < a.len() {
        assert(a[gs - 1] && a[ge]);
        assert(in_short_gap(a, max_gap, j));
    } else if in_short_gap(a, max_gap, j) {
        let (l, h) = choose|l: int, h: int|
            #![trigger a[l - 1], a[h]]
            0 < l <= j < h < a.len() && h - l <= max_gap && a[l - 1] && a[h] && forall|k: int|
                l <= k < h ==> !a[k];
        if l < gs {
            assert(!a[gs - 1]);
        }
        if l > gs {
            assert(!a[l - 1]);
        }
        if h < ge {
            assert(!a[h]);
        }
        if h > ge {
            if ge < a.len() {
                assert(!a[ge]);
            }
        }
        assert(l == gs && h == ge);
    }
}

/// `sliding_window_starts` from `s` on: every `s + k * hop` before `last`.
pub open spec fn starts_before(s: int, last: int, hop: int) -> Seq<u64>
    decreases if s < last { last - s } else { 0 },
{
    if hop <= 0 || s >= last {
        Seq::empty()
    } else {
        seq![s as u64] + starts_before(s + hop, last, hop)
    }
}

/// Where the analysis windows start: 0 only when the audio fits in one window (or there is
/// no hop); otherwise every multiple of the hop before the last full window, and the start
/// of that last window.
pub open spec fn window_starts(duration: u64, window: u64, hop: u64) -> Seq<u64> {
    if duration <= window || hop == 0 {
        seq![0u64]
    } else {
        starts_before(0, duration - window, hop as int).push((duration - window) as u64)
    }
}

pub proof fn lemma_starts_before_below(s: int, last: int, hop: int)
    requires
        0 <= s,
        last <= u64::MAX,
    ensures
        forall|k: int| 0 <= k < starts_before(s, last, hop).len() ==> #[trigger] starts_before(s, last, hop)[k] < last,
    decreases if s < last { last - s } else { 0 },
{
    if hop > 0 && s < last {
        lemma_starts_before_below(s + hop, last, hop);
        assert forall|k: int| 0 <= k < starts_before(s, last, hop).len() implies #[trigger] starts_before(s, last, hop)[k] < last by {
            let rest = starts_before(s + hop, last, hop);
            assert(starts_before(s, last, hop) == seq![s as u64] + rest);
            if k > 0 {
                assert(starts_before(s, last, hop)[k] == rest[k - 1]);
            } else {
                assert(starts_before(s, last, hop)[0] == s as u64);
            }
        }
    }
}

pub fn sliding_window_starts(audio_duration_ms: u64, window_ms: u64, hop_ms: u64) -> (r: Vec<u64>)
    ensures
        r@ == window_starts(audio_duration_ms, window_ms, hop_ms),
{
    if audio_duration_ms <= window_ms || hop_ms == 0 {
        return vec![0];
    }
    let last_start = audio_duration_ms - window_ms;
    let mut starts: Vec<u64> = Vec::new();
    let mut start: u64 = 0;
    assert(starts@ + starts_before(0, last_start as int, hop_ms as int) =~= starts_before(0, last_start as int, hop_ms as int));
    while start < last_start
        invariant
            hop_ms > 0,
            starts@ + starts_before(start as int, last_start as int, hop_ms as int) == starts_before(
                0,
                last_start as int,
                hop_ms as int,
            ),
        decreases u64::MAX - start,
    {
        let ghost before = starts@;
        starts.push(start);
        let next = if start > u64::MAX - hop_ms {
            u64::MAX
        } else {
            start + hop_ms
        };
        proof {
            assert(starts_before(next as int, last_start as int, hop_ms as int) == starts_before(start + hop_ms, last_start as int, hop_ms as int));
            assert(before + starts_before(start as int, last_start as int, hop_ms as int) =~= starts@ + starts_before(start + hop_ms, last_start as int, hop_ms as int));
        }
        start = next;
    }
    assert(starts@ =~= starts_before(0, last_start as int, hop_ms as int));
    proof {
        lemma_starts_before_below(0, last_start as int, hop_ms as int);
    }
    let n = starts.len();
    if n == 0 || starts[n - 1] != last_start {
        starts.push(last_start);
    } else {
        assert(false);
    }
    starts
}


#[derive(Clone, Copy, Debug, PartialEq, Eq, Structural)]
pub struct SpeechRegion {
    pub start_ms: u64,
    pub end_ms: u64,
}

/// Scanning state over activity flags: the finished runs of active frames as frame
/// ranges, and the start of the current run.
pub open spec fn runs_state(a: Seq<bool>) -> (Seq<(int, int)>, Option<int>)
    decreases a.len(),
{
    if a.len() == 0 {
        (Seq::empty(), None)
    } else {
        let (done, cur) = runs_state(a.drop_last());
        let i = a.len() - 1;
        match (cur, a.last()) {
            (None, true) => (done, Some(i)),
            (Some(st), false) => (done.push((st, i)), None),
            _ => (done, cur),
        }
    }
}

/// The maximal runs of active frames, as frame ranges.
pub open spec fn active_runs(a: Seq<bool>) -> Seq<(int, int)> {
    let (done, cur) = runs_state(a);
    match cur {
        Some(st) => done.push((st, a.len() as int)),
        None => done,
    }
}

pub open spec fn keep_long(rs: Seq<(int, int)>, hop: int, min_speech: int) -> Seq<SpeechRegion>
    decreases rs.len(),
{
    if rs.len() == 0 {
        Seq::empty()
    } else {
        let rest = keep_long(rs.drop_last(), hop, min_speech);
        let (a, b) = rs.last();
        if b * hop - a * hop >= min_speech {
            rest.push(SpeechRegion { start_ms: (a * hop) as u64, end_ms: (b * hop) as u64 })
        } else {
            rest
        }
    }
}

/// The speech regions of per-frame activity: silences shorter than `min_silence_ms` between
/// speech are filled, runs of active frames become regions in milliseconds, and regions
/// shorter than `min_speech_ms` are dropped.
pub open spec fn regions_of(a: Seq<bool>, hop: u64, min_speech: u64, min_silence: u64) -> Seq<SpeechRegion> {
    if a.len() == 0 || hop == 0 {
        Seq::empty()
    } else {
        let max_gap = (((min_silence + hop - 1) / (hop as int)) as usize) as int;
        keep_long(active_runs(gaps_filled(a, max_gap)), hop as int, min_speech as int)
    }
}

pub proof fn lemma_runs_bounds(a: Seq<bool>)
    ensures
        forall|k: int| 0 <= k < runs_state(a).0.len() ==> 0 <= (#[trigger] runs_state(a).0[k]).0 <= runs_state(a).0[k].1 <= a.len(),
        runs_state(a).1 matches Some(st) ==> 0 <= st < a.len(),
    decreases a.len(),
{
    if a.len() > 0 {
        lemma_runs_bounds(a.drop_last());
    }
}

pub fn speech_regions_from_activity(
    active: Vec<bool>,
    frame_hop_ms: u64,
    min_speech_ms: u64,
    min_silence_ms: u64,
) -> (r: Vec<SpeechRegion>)
    requires
        frame_hop_ms == 0 || min_silence_ms + frame_hop_ms - 1 <= u64::MAX,
        active@.len() * frame_hop_ms <= u64::MAX,
    ensures
        r@ == regions_of(active@, frame_hop_ms, min_speech_ms, min_silence_ms),
{
    if active.len() == 0 || frame_hop_ms == 0 {
        return Vec::new();
    }
    let ghost a0 = active@;
    let max_gap = ((min_silence_ms + (frame_hop_ms - 1)) / frame_hop_ms) as usize;
    let mut flags = active;
    fill_short_silence_gaps(&mut flags, max_gap);
    let ghost f = flags@;
    let len = flags.len();
    let mut runs: Vec<(usize, usize)> = Vec::new();
    let mut current: Option<usize> = None;
    for i in 0..len
        invariant
            len == f.len(),
            f == flags@,
            runs@.map_values(|p: (usize, usize)| (p.0 as int, p.1 as int)) == runs_state(f.take(i as int)).0,
            match current {
                Some(st) => runs_state(f.take(i as int)).1 == Some(st as int),
                None => runs_state(f.take(i as int)).1 is None,
            },
    {
        assert(f.take(i + 1).drop_last() =~= f.take(i as int));
        assert(f.take(i + 1).last() == f[i as int]);
        match current {
            None => {
                if flags[i] {
                    current = Some(i);
                }
            },
            Some(st) => {
                if !flags[i] {
                    let ghost before = runs@;
                    runs.push((st, i));
                    assert(runs@.map_values(|p: (usize, usize)| (p.0 as int, p.1 as int)) =~= before.map_values(|p: (usize, usize)| (p.0 as int, p.1 as int)).push((st as int, i as int)));
                    current = None;
                }
            },
        }
    }
    assert(f.take(len as int) =~= f);
    if let Some(st) = current {
        let ghost before = runs@;
        runs.push((st, len));
        assert(runs@.map_values(|p: (usize, usize)| (p.0 as int, p.1 as int)) =~= before.map_values(|p: (usize, usize)| (p.0 as int, p.1 as int)).push((st as int, len as int)));
    }
    let ghost rv = runs@.map_values(|p: (usize, usize)| (p.0 as int, p.1 as int));
    assert(rv == active_runs(f));
    proof {
        lemma_runs_bounds(f);
    }
    let mut out: Vec<SpeechRegion> = Vec::new();
    for k in 0..runs.len()
        invariant
            rv == runs@.map_values(|p: (usize, usize)| (p.0 as int, p.1 as int)),
            rv == active_runs(f),
            forall|j: int| 0 <= j < rv.len() ==> 0 <= (#[trigger] rv[j]).0 <= rv[j].1 <= len,
            len * frame_hop_ms <= u64::MAX,
            frame_hop_ms > 0,
            out@ == keep_long(rv.take(k as int), frame_hop_ms as int, min_speech_ms as int),
    {
        assert(rv.take(k + 1).drop_last() =~= rv.take(k as int));
        assert(rv.take(k + 1).last() == rv[k as int]);
        let (a, b) = runs[k];
        proof {
            assert(rv[k as int] == (a as int, b as int));
            vstd::arithmetic::mul::lemma_mul_inequality(b as int, len as int, frame_hop_ms as int);
            vstd::arithmetic::mul::lemma_mul_inequality(a as int, b as int, frame_hop_ms as int);
        }
        let start_ms = a as u64 * frame_hop_ms;
        let end_ms = b as u64 * frame_hop_ms;
        if end_ms - start_ms >= min_speech_ms {
            out.push(SpeechRegion { start_ms, end_ms });
        }
    }
    assert(rv.take(runs.len() as int) =~= rv);
    out
}

/// `plain_transcript`: the provided transcript text trimmed when it is not empty, else the
/// trimmed segment texts that are not empty, joined by spaces.
pub open spec fn plain_text(texts: Seq<Seq<char>>, provided: Seq<char>) -> Seq<char> {
    if trim(provided).len() > 0 {
        trim(provided)
    } else {
        crate::text::join(crate::ambient::filled_lines(texts), seq![' '])
    }
}

pub open spec fn transcript_texts(v: Seq<TranscriptSegment>) -> Seq<Seq<char>> {
    v.map_values(|s: TranscriptSegment| s.text@)
}

pub fn plain_transcript(transcript_segments: &[TranscriptSegment], transcript_text: &str) -> (r:
    String)
    ensures
        r@ == plain_text(transcript_texts(transcript_segments@), transcript_text@),
{
    let pc = to_chars(transcript_text);
    let provided = trimmed(&pc, CharClass::Whitespace);
    if provided.len() > 0 {
        return from_chars(&provided);
    }
    let ghost tv = transcript_texts(transcript_segments@);
    let mut parts: Vec<Vec<char>> = Vec::new();
    for i in 0..transcript_segments.len()
        invariant
            tv == transcript_texts(transcript_segments@),
            crate::text::views(parts@) == crate::ambient::filled_lines(tv.take(i as int)),
    {
        assert(tv.take(i + 1).drop_last() =~= tv.take(i as int));
        let tc = to_chars(transcript_segments[i].text.as_str());
        let t = trimmed(&tc, CharClass::Whitespace);
        if t.len() > 0 {
            proof {
                crate::text::lemma_views_push(parts@, t);
            }
            parts.push(t);
        }
    }
    assert(tv.take(transcript_segments.len() as int) =~= tv);
    let sep = vec![' '];
    assert(sep@ =~= seq![' ']);
    let j = crate::text::join_vecs(&parts, &sep);
    assert(parts@.map_values(|p: Vec<char>| p@) =~= crate::text::views(parts@));
    from_chars(&j)
}

pub ghost struct TranscriptView {
    pub lane: crate::ambient::AudioLane,
    pub start_ms: u64,
    pub end_ms: u64,
    pub speaker_turn_next: bool,
    pub text: Seq<char>,
}

pub open spec fn transcript_views(v: Seq<TranscriptSegment>) -> Seq<TranscriptView> {
    v.map_values(
        |s: TranscriptSegment|
            TranscriptView {
                lane: s.lane,
                start_ms: s.start_ms,
                end_ms: s.end_ms,
                speaker_turn_next: s.speaker_turn_next,
                text: s.text@,
            },
    )
}

/// `build_canonical_segments` over the first `n` transcript segments (each with its
/// label), and the next id: each is trimmed, at least 1 ms long and numbered, then merged in
/// order (a segment that ends a speaker turn forces the next one to start a new bubble); an
/// id is used up only when a segment is added.
pub open spec fn build_upto(ts: Seq<TranscriptView>, labels: Seq<SpeakerLabel>, n: int) -> (
    Seq<SegmentView>,
    u64,
)
    decreases n,
{
    if n <= 0 {
        (Seq::empty(), 1)
    } else {
        let (segs, next) = build_upto(ts, labels, n - 1);
        build_step(segs, next, ts[n - 1], labels[n - 1])
    }
}

#[verifier::opaque]
pub open spec fn build_step(segs: Seq<SegmentView>, next: u64, t: TranscriptView, label: SpeakerLabel) -> (
    Seq<SegmentView>,
    u64,
) {
    let cand = SegmentView {
        id: next,
        lane: t.lane,
        speaker: label,
        start_ms: t.start_ms,
        end_ms: if t.end_ms >= t.start_ms + 1 {
            t.end_ms
        } else {
            (t.start_ms + 1) as u64
        },
        text: trim(t.text),
    };
    let (after, ret) = merge(segs, cand, t.speaker_turn_next);
    if ret is Some && after.len() > segs.len() {
        (after, (next + 1) as u64)
    } else {
        (after, next)
    }
}

pub fn build_one(
    segments: &mut Vec<CanonicalSegment>,
    next_segment_id: &mut u64,
    seg: &TranscriptSegment,
    label: SpeakerLabel,
)
    requires
        seg.start_ms < u64::MAX,
        *old(next_segment_id) < u64::MAX,
    ensures
        (seg_views(final(segments)@), *final(next_segment_id)) == build_step(
            seg_views(old(segments)@),
            *old(next_segment_id),
            transcript_views(seq![*seg])[0],
            label,
        ),
{
    reveal(build_step);
    let tc = to_chars(seg.text.as_str());
    let t = trimmed(&tc, CharClass::Whitespace);
    let end_ms = if seg.end_ms >= seg.start_ms + 1 {
        seg.end_ms
    } else {
        seg.start_ms + 1
    };
    let candidate = CanonicalSegment {
        id: *next_segment_id,
        lane: seg.lane,
        speaker: label,
        start_ms: seg.start_ms,
        end_ms,
        text: from_chars(&t),
    };
    let len_before = segments.len();
    if merge_segment(segments, candidate, seg.speaker_turn_next).is_some() && segments.len()
        > len_before {
        *next_segment_id = *next_segment_id + 1;
    }
}

/// The segments built from the transcript segments paired with labels, as far as both go.
pub open spec fn build_segments(ts: Seq<TranscriptView>, labels: Seq<SpeakerLabel>) -> Seq<SegmentView> {
    build_upto(ts, labels, if ts.len() < labels.len() { ts.len() as int } else { labels.len() as int }).0
}

pub proof fn lemma_build_next_bound(ts: Seq<TranscriptView>, labels: Seq<SpeakerLabel>, n: int)
    requires
        0 <= n < u64::MAX,
    ensures
        1 <= build_upto(ts, labels, n).1 <= n + 1,
    decreases n,
{
    if n > 0 {
        lemma_build_next_bound(ts, labels, n - 1);
        reveal(build_step);
    }
}

pub fn build_canonical_segments(transcript_segments: &[TranscriptSegment], labels: &[SpeakerLabel]) -> (r: Vec<CanonicalSegment>)
    requires
        forall|k: int|
            0 <= k < transcript_segments@.len() ==> (#[trigger] transcript_segments@[k]).start_ms
                < u64::MAX,
        transcript_segments@.len() < u64::MAX,
    ensures
        seg_views(r@) == build_segments(transcript_views(transcript_segments@), labels@),
{
    let ghost tv = transcript_views(transcript_segments@);
    let n = if transcript_segments.len() < labels.len() {
        transcript_segments.len()
    } else {
        labels.len()
    };
    let mut segments: Vec<CanonicalSegment> = Vec::new();
    let mut next_segment_id: u64 = 1;
    for i in 0..n
        invariant
            tv == transcript_views(transcript_segments@),
            n <= transcript_segments@.len(),
            n <= labels@.len(),
            transcript_segments@.len() < u64::MAX,
            forall|k: int|
                0 <= k < transcript_segments@.len() ==> (#[trigger] transcript_segments@[k]).start_ms
                    < u64::MAX,
            (seg_views(segments@), next_segment_id) == build_upto(tv, labels@, i as int),
    {
        proof {
            lemma_build_next_bound(tv, labels@, i as int);
            assert(transcript_views(seq![transcript_segments@[i as int]])[0] == tv[i as int]);
        }
        build_one(&mut segments, &mut next_segment_id, &transcript_segments[i], labels[i]);
    }
    segments
}


pub open spec fn speakers_of(segs: Seq<SegmentView>) -> Seq<SpeakerLabel> {
    segs.map_values(|s: SegmentView| s.speaker)
}

/// The speakers whose index is `k`, in order.
pub open spec fn with_index(ss: Seq<SpeakerLabel>, k: usize) -> Seq<SpeakerLabel>
    decreases ss.len(),
{
    if ss.len() == 0 {
        Seq::empty()
    } else if speaker_index(ss.last()) == k {
        with_index(ss.drop_last(), k).push(ss.last())
    } else {
        with_index(ss.drop_last(), k)
    }
}

/// The speakers stably sorted by index.
pub open spec fn sorted_by_index(ss: Seq<SpeakerLabel>) -> Seq<SpeakerLabel> {
    with_index(ss, 0) + with_index(ss, 1) + with_index(ss, 2) + with_index(ss, 3) + with_index(
        ss,
        4,
    ) + with_index(ss, 5)
}

/// The number of runs of equal neighbours.
pub open spec fn runs_count(ss: Seq<SpeakerLabel>) -> nat
    decreases ss.len(),
{
    if ss.len() == 0 {
        0
    } else if ss.len() >= 2 && ss[ss.len() - 2] == ss.last() {
        runs_count(ss.drop_last())
    } else {
        runs_count(ss.drop_last()) + 1
    }
}

/// `unique_speaker_count`: the speakers sorted by index, with neighbours that are equal
/// counted once.
pub open spec fn speaker_count(segs: Seq<SegmentView>) -> nat {
    runs_count(sorted_by_index(speakers_of(segs)))
}

pub proof fn lemma_runs_count_le(ss: Seq<SpeakerLabel>)
    ensures
        runs_count(ss) <= ss.len(),
    decreases ss.len(),
{
    if ss.len() > 0 {
        lemma_runs_count_le(ss.drop_last());
    }
}

pub fn collect_with_index(segments: &[CanonicalSegment], k: usize, out: &mut Vec<SpeakerLabel>)
    ensures
        final(out)@ == old(out)@ + with_index(speakers_of(seg_views(segments@)), k),
{
    let ghost ss = speakers_of(seg_views(segments@));
    let ghost base = out@;
    for i in 0..segments.len()
        invariant
            ss == speakers_of(seg_views(segments@)),
            out@ == base + with_index(ss.take(i as int), k),
    {
        assert(ss.take(i + 1).drop_last() =~= ss.take(i as int));
        assert(ss.take(i + 1).last() == segments@[i as int].speaker);
        if segments[i].speaker.index() == k {
            out.push(segments[i].speaker);
        }
    }
    assert(ss.take(segments.len() as int) =~= ss);
}

pub fn unique_speaker_count(segments: &[CanonicalSegment]) -> (r: usize)
    ensures
        r == speaker_count(seg_views(segments@)),
{
    let ghost ss = speakers_of(seg_views(segments@));
    let mut sorted: Vec<SpeakerLabel> = Vec::new();
    collect_with_index(segments, 0, &mut sorted);
    collect_with_index(segments, 1, &mut sorted);
    collect_with_index(segments, 2, &mut sorted);
    collect_with_index(segments, 3, &mut sorted);
    collect_with_index(segments, 4, &mut sorted);
    collect_with_index(segments, 5, &mut sorted);
    assert(sorted@ =~= sorted_by_index(ss));
    let mut count: usize = 0;
    for i in 0..sorted.len()
        invariant
            count == runs_count(sorted@.take(i as int)),
            count <= i,
    {
        assert(sorted@.take(i + 1).drop_last() =~= sorted@.take(i as int));
        if !(i >= 1 && sorted[i - 1] == sorted[i]) {
            count = count + 1;
        }
    }
    assert(sorted@.take(sorted.len() as int) =~= sorted@);
    count
}

/// `a.saturating_add(b)`.
pub open spec fn sat_add(a: u64, b: u64) -> u64 {
    if a + b > u64::MAX {
        u64::MAX
    } else {
        (a + b) as u64
    }
}

/// The speaker of the last earlier segment of the session, or the first speaker.
pub open spec fn speaker_before(previous: Seq<CanonicalSegment>) -> SpeakerLabel {
    if previous.len() > 0 {
        previous.last().speaker
    } else {
        SpeakerLabel::S1
    }
}

/// The voice diarization of a chunk over its first `n` transcript segments: the speaker
/// carried on, the turn hint carried on, and the turns so far. A segment with no words is
/// skipped. Each other one takes the speaker its voice was identified as, or the speaker
/// before it; its times move by the chunk start (saturating) and it lasts at least 1 ms; its
/// words are joined by single spaces; and it starts a new bubble when the segment before it
/// ended a speaker turn.
pub open spec fn turns_upto(
    chunk_start: u64,
    first: SpeakerLabel,
    ts: Seq<TranscriptView>,
    ids: Seq<Option<SpeakerLabel>>,
    n: int,
) -> (SpeakerLabel, bool, Seq<crate::pipeline::DiarizedView>)
    decreases n,
{
    if n <= 0 {
        (first, false, Seq::empty())
    } else {
        let (last, hint, out) = turns_upto(chunk_start, first, ts, ids, n - 1);
        let t = ts[n - 1];
        let text = crate::text::collapse(t.text);
        if text.len() == 0 {
            (last, hint, out)
        } else {
            let speaker = match ids[n - 1] {
                Some(s) => s,
                None => last,
            };
            let start = sat_add(chunk_start, t.start_ms);
            let e = sat_add(chunk_start, t.end_ms);
            let end = if e >= start + 1 {
                e
            } else {
                (start + 1) as u64
            };
            (
                speaker,
                t.speaker_turn_next,
                out.push(
                    crate::pipeline::DiarizedView {
                        lane: t.lane,
                        speaker,
                        start_ms: start,
                        end_ms: end,
                        text,
                        force_new: hint,
                    },
                ),
            )
        }
    }
}

/// Every turn lasts at least 1 ms, has words, and there are no more turns than segments.
pub proof fn lemma_turns_shape(
    chunk_start: u64,
    first: SpeakerLabel,
    ts: Seq<TranscriptView>,
    ids: Seq<Option<SpeakerLabel>>,
    n: int,
)
    requires
        0 <= n <= ts.len(),
        forall|k: int|
            0 <= k < n && crate::text::collapse((#[trigger] ts[k]).text).len() > 0 ==> sat_add(
                chunk_start,
                ts[k].start_ms,
            ) < u64::MAX,
    ensures
        ({
            let out = turns_upto(chunk_start, first, ts, ids, n).2;
            &&& out.len() <= n
            &&& forall|k: int|
                0 <= k < out.len() ==> (#[trigger] out[k]).start_ms < out[k].end_ms
                    && out[k].text.len() > 0
        }),
    decreases n,
{
    if n > 0 {
        lemma_turns_shape(chunk_start, first, ts, ids, n - 1);
        let out = turns_upto(chunk_start, first, ts, ids, n).2;
        let prev = turns_upto(chunk_start, first, ts, ids, n - 1).2;
        assert forall|k: int| 0 <= k < out.len() implies (#[trigger] out[k]).start_ms
            < out[k].end_ms && out[k].text.len() > 0 by {
            if k < prev.len() {
                assert(out[k] == prev[k]);
            }
        }
    }
}

/// The turns of a chunk, given for each transcript segment the speaker its voice was
/// identified as (none when the audio was too short to tell).
pub fn diarize_turns(
    chunk_start_ms: u64,
    previous_segments: &[CanonicalSegment],
    segments: &[TranscriptSegment],
    identified: &Vec<Option<SpeakerLabel>>,
) -> (r: Vec<crate::ambient::DiarizedSegment>)
    requires
        identified@.len() == segments@.len(),
        forall|k: int|
            0 <= k < segments@.len() && crate::text::collapse((#[trigger] segments@[k]).text@).len()
                > 0 ==> sat_add(chunk_start_ms, segments@[k].start_ms) < u64::MAX,
    ensures
        crate::pipeline::diarized_views(r@) == turns_upto(
            chunk_start_ms,
            speaker_before(previous_segments@),
            transcript_views(segments@),
            identified@,
            segments@.len() as int,
        ).2,
        r@.len() <= segments@.len(),
        forall|k: int| 0 <= k < r@.len() ==> (#[trigger] r@[k]).start_ms < r@[k].end_ms,
{
    let ghost tv = transcript_views(segments@);
    let mut last_speaker = if previous_segments.len() > 0 {
        previous_segments[previous_segments.len() - 1].speaker
    } else {
        SpeakerLabel::S1
    };
    let mut turn_next = false;
    let mut turns: Vec<crate::ambient::DiarizedSegment> = Vec::new();
    for i in 0..segments.len()
        invariant
            tv == transcript_views(segments@),
            identified@.len() == segments@.len(),
            forall|k: int|
                0 <= k < segments@.len() && crate::text::collapse(
                    (#[trigger] segments@[k]).text@,
                ).len() > 0 ==> sat_add(chunk_start_ms, segments@[k].start_ms) < u64::MAX,
            (last_speaker, turn_next, crate::pipeline::diarized_views(turns@)) == turns_upto(
                chunk_start_ms,
                speaker_before(previous_segments@),
                tv,
                identified@,
                i as int,
            ),
    {
        let segment = &segments[i];
        assert(tv[i as int].text == segment.text@);
        let words = to_chars(segment.text.as_str());
        let text = crate::text::collapse_spaces(&words);
        if text.len() > 0 {
            let speaker = match identified[i] {
                Some(s) => s,
                None => last_speaker,
            };
            last_speaker = speaker;
            let start_ms = chunk_start_ms.saturating_add(segment.start_ms);
            let e = chunk_start_ms.saturating_add(segment.end_ms);
            let end_ms = if e >= start_ms + 1 {
                e
            } else {
                start_ms + 1
            };
            let ghost before = turns@;
            turns.push(
                crate::ambient::DiarizedSegment {
                    lane: segment.lane,
                    speaker,
                    start_ms,
                    end_ms,
                    text: from_chars(&text),
                    force_new: turn_next,
                },
            );
            assert(crate::pipeline::diarized_views(turns@) =~= crate::pipeline::diarized_views(
                before,
            ).push(
                crate::pipeline::DiarizedView {
                    lane: segment.lane,
                    speaker,
                    start_ms,
                    end_ms,
                    text: text@,
                    force_new: turns@.last().force_new,
                },
            ));
            turn_next = segment.speaker_turn_next;
        }
    }
    proof {
        lemma_turns_shape(
            chunk_start_ms,
            speaker_before(previous_segments@),
            tv,
            identified@,
            segments@.len() as int,
        );
        let dv = crate::pipeline::diarized_views(turns@);
        assert forall|k: int| 0 <= k < turns@.len() implies (#[trigger] turns@[k]).start_ms
            < turns@[k].end_ms by {
            assert(dv[k].start_ms == turns@[k].start_ms);
        }
    }
    turns
}


/// The voice-based diarization engine. It tells speakers apart with a voice identifier that
/// keeps its own state between chunks; what it makes of the identifier's answers is
/// `diarize_turns`.
pub struct VoiceDiarizationEngine;

impl VoiceDiarizationEngine {
    /// The engine's name in reports.
    pub fn label(&self) -> (r: &'static str)
        ensures
            r@ == "voice_mfcc_v1"@,
    {
        "voice_mfcc_v1"
    }

    /// The samples of a chunk that a transcript segment covers (its times relative to the
    /// chunk), each end cut at the end of the chunk.
    pub fn segment_audio(chunk_len: usize, sample_rate_hz: usize, segment_start_ms: u64, segment_end_ms: u64) -> (r: (usize, usize))
        requires
            (segment_start_ms as usize) * sample_rate_hz <= usize::MAX,
            (segment_end_ms as usize) * sample_rate_hz <= usize::MAX,
            min_int(sample_at(segment_start_ms, sample_rate_hz), chunk_len as int) <= min_int(
                sample_at(segment_end_ms, sample_rate_hz),
                chunk_len as int,
            ),
        ensures
            r.0 == min_int(sample_at(segment_start_ms, sample_rate_hz), chunk_len as int),
            r.1 == min_int(sample_at(segment_end_ms, sample_rate_hz), chunk_len as int),
            r.0 <= r.1 <= chunk_len,
    {
        let a = segment_start_ms as usize;
        let b = segment_end_ms as usize;
        let s = a * sample_rate_hz / 1000;
        let e = b * sample_rate_hz / 1000;
        let start_idx = if s < chunk_len {
            s
        } else {
            chunk_len
        };
        let end_idx = if e < chunk_len {
            e
        } else {
            chunk_len
        };
        (start_idx, end_idx)
    }
}

} // verus!
