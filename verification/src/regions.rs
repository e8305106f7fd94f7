//! Candidate speaker regions of the native diarization: built from the transcript,
//! smoothed, snapped to detected speech, and labelled by cluster.
use vstd::prelude::*;
use crate::ambient::{sat_sub, SpeakerLabel, TranscriptSegment};
use crate::final_pass::{label_for_index, speaker_label_for_index};
use crate::diarization::{overlap, overlap_ms, SpeechRegion};
use crate::text::{to_chars, trim, trimmed, CharClass};

verus! {

pub const SHORT_REGION_MS: u64 = 375;
pub const SHORT_REGION_ATTACH_GAP_MS: u64 = 240;
pub const DEFAULT_SPEECH_SNAP_COLLAR_MS: u64 = 80;
pub const DEFAULT_NEAREST_SPEECH_ATTACH_MS: u64 = 320;

/// A stretch of audio believed to hold one speaker: its span, the transcript segments it
/// covers and, once clustered, its cluster.
pub struct CandidateRegion {
    pub start_ms: u64,
    pub end_ms: u64,
    pub segment_indices: Vec<usize>,
    pub cluster_id: Option<usize>,
}

pub ghost struct RegionView {
    pub start_ms: u64,
    pub end_ms: u64,
    pub segment_indices: Seq<usize>,
    pub cluster_id: Option<usize>,
}

impl View for CandidateRegion {
    type V = RegionView;

    open spec fn view(&self) -> RegionView {
        RegionView {
            start_ms: self.start_ms,
            end_ms: self.end_ms,
            segment_indices: self.segment_indices@,
            cluster_id: self.cluster_id,
        }
    }
}

pub open spec fn region_views(v: Seq<CandidateRegion>) -> Seq<RegionView> {
    v.map_values(|r: CandidateRegion| r@)
}

pub open spec fn max_u64(a: u64, b: u64) -> u64 {
    if a >= b {
        a
    } else {
        b
    }
}

pub open spec fn min_u64(a: u64, b: u64) -> u64 {
    if a <= b {
        a
    } else {
        b
    }
}

/// One region for each transcript segment with text, in order, at least 1 ms long.
pub open spec fn candidate_regions_upto(ts: Seq<TranscriptSegment>, n: int) -> Seq<RegionView>
    decreases n,
{
    if n <= 0 {
        Seq::empty()
    } else {
        let prev = candidate_regions_upto(ts, n - 1);
        let s = ts[n - 1];
        if trim(s.text@).len() == 0 {
            prev
        } else {
            prev.push(
                RegionView {
                    start_ms: s.start_ms,
                    end_ms: max_u64(s.end_ms, (s.start_ms + 1) as u64),
                    segment_indices: seq![(n - 1) as usize],
                    cluster_id: None,
                },
            )
        }
    }
}

pub fn build_candidate_regions(transcript_segments: &[TranscriptSegment]) -> (r: Vec<
    CandidateRegion,
>)
    requires
        forall|k: int|
            0 <= k < transcript_segments@.len() && trim((#[trigger] transcript_segments@[k]).text@).len()
                > 0 ==> transcript_segments@[k].start_ms < u64::MAX,
    ensures
        region_views(r@) == candidate_regions_upto(
            transcript_segments@,
            transcript_segments@.len() as int,
        ),
{
    let mut regions: Vec<CandidateRegion> = Vec::new();
    for index in 0..transcript_segments.len()
        invariant
            forall|k: int|
                0 <= k < transcript_segments@.len() && trim(
                    (#[trigger] transcript_segments@[k]).text@,
                ).len() > 0 ==> transcript_segments@[k].start_ms < u64::MAX,
            region_views(regions@) == candidate_regions_upto(transcript_segments@, index as int),
    {
        let segment = &transcript_segments[index];
        let c = to_chars(segment.text.as_str());
        let t = trimmed(&c, CharClass::Whitespace);
        if t.len() > 0 {
            let end_ms = if segment.end_ms >= segment.start_ms + 1 {
                segment.end_ms
            } else {
                segment.start_ms + 1
            };
            let ghost before = regions@;
            let mut indices: Vec<usize> = Vec::new();
            indices.push(index);
            assert(indices@ =~= seq![index]);
            regions.push(
                CandidateRegion {
                    start_ms: segment.start_ms,
                    end_ms,
                    segment_indices: indices,
                    cluster_id: None,
                },
            );
            assert(region_views(regions@) =~= region_views(before).push(regions@.last()@));
        }
    }
    regions
}

/// A short region folded into the one before it: that one reaches as far as either did,
/// and covers the segments of both.
pub open spec fn merged_into_previous(rs: Seq<RegionView>, p: int, c: int) -> Seq<RegionView> {
    let cur = rs[c];
    let rest = rs.remove(c);
    let prev = rest[p];
    rest.update(
        p,
        RegionView {
            end_ms: max_u64(prev.end_ms, cur.end_ms),
            segment_indices: prev.segment_indices + cur.segment_indices,
            ..prev
        },
    )
}

/// A short region folded into the one after it: that one starts as early as either did,
/// and covers the segments of both, the short region's first.
pub open spec fn merged_into_next(rs: Seq<RegionView>, c: int, n: int) -> Seq<RegionView> {
    let cur = rs[c];
    let rest = rs.remove(c);
    let next = rest[n - 1];
    rest.update(
        n - 1,
        RegionView {
            start_ms: min_u64(next.start_ms, cur.start_ms),
            segment_indices: cur.segment_indices + next.segment_indices,
            ..next
        },
    )
}

/// Smoothing from region `i` on: a region shorter than the short-region limit, when there
/// is more than one region, is folded into the region before it if the gap to it is small
/// enough, else into the region after it if that gap is; otherwise it stays.
pub open spec fn smooth_from(rs: Seq<RegionView>, i: int) -> Seq<RegionView>
    decreases 2 * rs.len() - i,
{
    if i < 0 || i >= rs.len() {
        rs
    } else {
        let r = rs[i];
        if sat_sub(r.end_ms, r.start_ms) >= SHORT_REGION_MS || rs.len() <= 1 {
            smooth_from(rs, i + 1)
        } else if i > 0 && sat_sub(r.start_ms, rs[i - 1].end_ms) <= SHORT_REGION_ATTACH_GAP_MS {
            smooth_from(merged_into_previous(rs, i - 1, i), i)
        } else if i + 1 < rs.len() && sat_sub(rs[i + 1].start_ms, r.end_ms)
            <= SHORT_REGION_ATTACH_GAP_MS {
            smooth_from(merged_into_next(rs, i, i + 1), i)
        } else {
            smooth_from(rs, i + 1)
        }
    }
}

fn sat_sub_exec(a: u64, b: u64) -> (r: u64)
    ensures
        r == sat_sub(a, b),
{
    if a >= b {
        a - b
    } else {
        0
    }
}

pub fn smooth_regions(regions: &mut Vec<CandidateRegion>)
    ensures
        region_views(final(regions)@) == smooth_from(region_views(old(regions)@), 0),
{
    let ghost target = smooth_from(region_views(regions@), 0);
    let mut index: usize = 0;
    while index < regions.len()
        invariant
            index <= regions@.len(),
            smooth_from(region_views(regions@), index as int) == target,
        decreases 2 * regions@.len() - index,
    {
        let ghost rs = region_views(regions@);
        let duration_ms = sat_sub_exec(regions[index].end_ms, regions[index].start_ms);
        if duration_ms >= SHORT_REGION_MS || regions.len() <= 1 {
            index = index + 1;
            continue;
        }
        let attach_prev = index > 0 && sat_sub_exec(
            regions[index].start_ms,
            regions[index - 1].end_ms,
        ) <= SHORT_REGION_ATTACH_GAP_MS;
        let attach_next = index + 1 < regions.len() && sat_sub_exec(
            regions[index + 1].start_ms,
            regions[index].end_ms,
        ) <= SHORT_REGION_ATTACH_GAP_MS;
        if attach_prev {
            let current = regions.remove(index);
            let mut previous = regions.remove(index - 1);
            if current.end_ms > previous.end_ms {
                previous.end_ms = current.end_ms;
            }
            let mut more = current.segment_indices;
            previous.segment_indices.append(&mut more);
            regions.insert(index - 1, previous);
            proof {
                let expect = merged_into_previous(rs, index - 1, index as int);
                assert(region_views(regions@) =~= expect);
            }
        } else if attach_next {
            let current = regions.remove(index);
            let mut next = regions.remove(index);
            if current.start_ms < next.start_ms {
                next.start_ms = current.start_ms;
            }
            let mut combined = current.segment_indices;
            combined.append(&mut next.segment_indices);
            next.segment_indices = combined;
            regions.insert(index, next);
            proof {
                let expect = merged_into_next(rs, index as int, index + 1);
                assert(region_views(regions@) =~= expect);
            }
        } else {
            index = index + 1;
        }
    }
}

/// The speech region that overlaps `[s, e)` the most among the first `k`: on equal overlap
/// the one starting earliest, and among full ties the later one; none when none overlaps.
pub open spec fn best_speech(speech: Seq<SpeechRegion>, s: u64, e: u64, k: int) -> Option<int>
    decreases k,
{
    if k <= 0 {
        None
    } else {
        let prev = best_speech(speech, s, e, k - 1);
        let o = overlap(s, e, speech[k - 1].start_ms, speech[k - 1].end_ms);
        if o == 0 {
            prev
        } else {
            match prev {
                None => Some(k - 1),
                Some(j) => {
                    let oj = overlap(s, e, speech[j].start_ms, speech[j].end_ms);
                    if o > oj || (o == oj && speech[k - 1].start_ms <= speech[j].start_ms) {
                        Some(k - 1)
                    } else {
                        prev
                    }
                },
            }
        }
    }
}

pub open spec fn midpoint(a: u64, b: u64) -> int {
    (a + b) / 2
}

pub open spec fn distance(a: int, b: int) -> int {
    if a >= b {
        a - b
    } else {
        b - a
    }
}

/// The speech region whose midpoint is nearest `mid` among the first `k` (at least one),
/// the earliest on ties.
pub open spec fn nearest_speech(speech: Seq<SpeechRegion>, mid: int, k: int) -> int
    decreases k,
{
    if k <= 1 {
        0
    } else {
        let j = nearest_speech(speech, mid, k - 1);
        let s = speech[k - 1];
        if distance(mid, midpoint(s.start_ms, s.end_ms)) < distance(
            mid,
            midpoint(speech[j].start_ms, speech[j].end_ms),
        ) {
            k - 1
        } else {
            j
        }
    }
}

/// The span of a region snapped to the detected speech, before it is made at least 1 ms
/// long: pulled in to the best overlapping speech region widened by the snap collar; or,
/// when none overlaps, stretched over the nearest speech region if their midpoints are
/// close enough.
pub open spec fn snapped_span(r: RegionView, speech: Seq<SpeechRegion>) -> (u64, u64) {
    match best_speech(speech, r.start_ms, r.end_ms, speech.len() as int) {
        Some(j) => {
            let sp = speech[j];
            (
                max_u64(r.start_ms, sat_sub(sp.start_ms, DEFAULT_SPEECH_SNAP_COLLAR_MS) as u64),
                min_u64(
                    r.end_ms,
                    if sp.end_ms + DEFAULT_SPEECH_SNAP_COLLAR_MS > u64::MAX {
                        u64::MAX
                    } else {
                        (sp.end_ms + DEFAULT_SPEECH_SNAP_COLLAR_MS) as u64
                    },
                ),
            )
        },
        None => {
            let sp = speech[nearest_speech(
                speech,
                midpoint(r.start_ms, r.end_ms),
                speech.len() as int,
            )];
            if distance(midpoint(r.start_ms, r.end_ms), midpoint(sp.start_ms, sp.end_ms))
                <= DEFAULT_NEAREST_SPEECH_ATTACH_MS {
                (min_u64(r.start_ms, sp.start_ms), max_u64(r.end_ms, sp.end_ms))
            } else {
                (r.start_ms, r.end_ms)
            }
        },
    }
}

/// Snapping a region can be done without overflow: midpoints are only taken when no speech
/// overlaps it, and a span left empty must start before the largest time.
pub open spec fn snap_ok(r: RegionView, speech: Seq<SpeechRegion>) -> bool {
    &&& best_speech(speech, r.start_ms, r.end_ms, speech.len() as int) is None ==> {
        &&& r.start_ms + r.end_ms <= u64::MAX
        &&& forall|k: int|
            0 <= k < speech.len() ==> (#[trigger] speech[k]).start_ms + speech[k].end_ms
                <= u64::MAX
    }
    &&& snapped_span(r, speech).1 <= snapped_span(r, speech).0 ==> snapped_span(r, speech).0
        < u64::MAX
}

/// A region snapped to the detected speech, at least 1 ms long.
pub open spec fn snapped(r: RegionView, speech: Seq<SpeechRegion>) -> RegionView {
    let (s, e) = snapped_span(r, speech);
    RegionView {
        start_ms: s,
        end_ms: if e <= s {
            (s + 1) as u64
        } else {
            e
        },
        ..r
    }
}

fn best_speech_exec(speech: &[SpeechRegion], s: u64, e: u64) -> (r: Option<usize>)
    ensures
        match best_speech(speech@, s, e, speech@.len() as int) {
            Some(j) => 0 <= j < speech@.len() && r == Some(j as usize),
            None => r is None,
        },
        r matches Some(j) ==> j < speech@.len(),
{
    let mut best: Option<usize> = None;
    let mut best_overlap: u64 = 0;
    for k in 0..speech.len()
        invariant
            match best_speech(speech@, s, e, k as int) {
                Some(j) => best == Some(j as usize) && 0 <= j < k && best_overlap == overlap(
                    s,
                    e,
                    speech@[j].start_ms,
                    speech@[j].end_ms,
                ),
                None => best is None,
            },
    {
        let o = overlap_ms(s, e, speech[k].start_ms, speech[k].end_ms);
        if o > 0 {
            match best {
                None => {
                    best = Some(k);
                    best_overlap = o;
                },
                Some(j) => {
                    if o > best_overlap || (o == best_overlap && speech[k].start_ms
                        <= speech[j].start_ms) {
                        best = Some(k);
                        best_overlap = o;
                    }
                },
            }
        }
    }
    best
}

fn nearest_speech_exec(speech: &[SpeechRegion], mid: u64) -> (r: usize)
    requires
        speech@.len() > 0,
        forall|k: int|
            0 <= k < speech@.len() ==> (#[trigger] speech@[k]).start_ms + speech@[k].end_ms
                <= u64::MAX,
    ensures
        r == nearest_speech(speech@, mid as int, speech@.len() as int),
        r < speech@.len(),
{
    let mut best: usize = 0;
    let m0 = (speech[0].start_ms + speech[0].end_ms) / 2;
    let mut best_distance: u64 = if mid >= m0 {
        mid - m0
    } else {
        m0 - mid
    };
    for k in 1..speech.len()
        invariant
            speech@.len() > 0,
            forall|k: int|
                0 <= k < speech@.len() ==> (#[trigger] speech@[k]).start_ms + speech@[k].end_ms
                    <= u64::MAX,
            best == nearest_speech(speech@, mid as int, k as int),
            best < k,
            best_distance == distance(
                mid as int,
                midpoint(speech@[best as int].start_ms, speech@[best as int].end_ms),
            ),
    {
        let m = (speech[k].start_ms + speech[k].end_ms) / 2;
        let d = if mid >= m {
            mid - m
        } else {
            m - mid
        };
        if d < best_distance {
            best = k;
            best_distance = d;
        }
    }
    best
}

/// Each region snapped to the detected speech; nothing changes without detected speech.
pub fn snap_regions_to_speech(regions: &mut Vec<CandidateRegion>, speech_regions: &[SpeechRegion])
    requires
        speech_regions@.len() > 0 ==> forall|k: int|
            0 <= k < old(regions)@.len() ==> snap_ok(
                (#[trigger] old(regions)@[k])@,
                speech_regions@,
            ),
    ensures
        speech_regions@.len() == 0 ==> region_views(final(regions)@) == region_views(
            old(regions)@,
        ),
        speech_regions@.len() > 0 ==> region_views(final(regions)@) == region_views(
            old(regions)@,
        ).map_values(|r: RegionView| snapped(r, speech_regions@)),
{
    if speech_regions.len() == 0 {
        return;
    }
    let ghost original = region_views(regions@);
    let n = regions.len();
    for i in 0..n
        invariant
            n == original.len() == regions@.len(),
            speech_regions@.len() > 0,
            forall|k: int| 0 <= k < n ==> snap_ok(#[trigger] original[k], speech_regions@),
            forall|k: int|
                0 <= k < i ==> #[trigger] region_views(regions@)[k] == snapped(
                    original[k],
                    speech_regions@,
                ),
            forall|k: int| i <= k < n ==> #[trigger] region_views(regions@)[k] == original[k],
    {
        let ghost rv = region_views(regions@)[i as int];
        assert(rv == original[i as int]);
        let ghost old_regions = regions@;
        let mut region = regions.remove(i);
        assert(region == old_regions[i as int]);
        assert(region@ == rv);
        assert(snap_ok(rv, speech_regions@));
        let ghost span = snapped_span(rv, speech_regions@);
        match best_speech_exec(speech_regions, region.start_ms, region.end_ms) {
            Some(j) => {
                let sp = &speech_regions[j];
                let lo = if sp.start_ms >= DEFAULT_SPEECH_SNAP_COLLAR_MS {
                    sp.start_ms - DEFAULT_SPEECH_SNAP_COLLAR_MS
                } else {
                    0
                };
                let hi = sp.end_ms.saturating_add(DEFAULT_SPEECH_SNAP_COLLAR_MS);
                if lo > region.start_ms {
                    region.start_ms = lo;
                }
                if hi < region.end_ms {
                    region.end_ms = hi;
                }
            },
            None => {
                let mid = (region.start_ms + region.end_ms) / 2;
                let k = nearest_speech_exec(speech_regions, mid);
                let sp = &speech_regions[k];
                let sm = (sp.start_ms + sp.end_ms) / 2;
                let d = if mid >= sm {
                    mid - sm
                } else {
                    sm - mid
                };
                if d <= DEFAULT_NEAREST_SPEECH_ATTACH_MS {
                    if sp.start_ms < region.start_ms {
                        region.start_ms = sp.start_ms;
                    }
                    if sp.end_ms > region.end_ms {
                        region.end_ms = sp.end_ms;
                    }
                }
            },
        }
        assert(region.start_ms == span.0 && region.end_ms == span.1);
        if region.end_ms <= region.start_ms {
            region.end_ms = region.start_ms + 1;
        }
        let ghost done = region;
        assert(done@ == snapped(rv, speech_regions@));
        regions.insert(i, region);
        proof {
            assert(regions@ =~= old_regions.update(i as int, done));
            assert forall|k: int| 0 <= k < n implies #[trigger] region_views(regions@)[k] == (
            if k == i {
                snapped(original[k], speech_regions@)
            } else {
                region_views(old_regions)[k]
            }) by {}
        }
    }
    assert(region_views(regions@) =~= original.map_values(
        |r: RegionView| snapped(r, speech_regions@),
    ));
}

/// Some region among the first `k` has a cluster.
pub open spec fn any_labeled(rs: Seq<RegionView>, k: int) -> bool {
    exists|j: int| 0 <= j < k && j < rs.len() && (#[trigger] rs[j]).cluster_id is Some
}

/// Among the first `k` regions with a cluster, the one whose midpoint is nearest `mid`,
/// the earliest on ties.
pub open spec fn nearest_labeled(rs: Seq<RegionView>, mid: int, k: int) -> Option<int>
    decreases k,
{
    if k <= 0 {
        None
    } else {
        let prev = nearest_labeled(rs, mid, k - 1);
        let r = rs[k - 1];
        if r.cluster_id is None {
            prev
        } else {
            match prev {
                None => Some(k - 1),
                Some(j) => if distance(mid, midpoint(r.start_ms, r.end_ms)) < distance(
                    mid,
                    midpoint(rs[j].start_ms, rs[j].end_ms),
                ) {
                    Some(k - 1)
                } else {
                    prev
                },
            }
        }
    }
}

pub proof fn lemma_nearest_labeled(rs: Seq<RegionView>, mid: int, k: int)
    requires
        0 <= k <= rs.len(),
    ensures
        match nearest_labeled(rs, mid, k) {
            Some(j) => 0 <= j < k && rs[j].cluster_id is Some,
            None => !any_labeled(rs, k),
        },
    decreases k,
{
    if k > 0 {
        lemma_nearest_labeled(rs, mid, k - 1);
        if nearest_labeled(rs, mid, k) is None {
            assert forall|j: int| 0 <= j < k && j < rs.len() implies !((#[trigger] rs[j]).cluster_id is Some) by {
                if j < k - 1 {
                    assert(!any_labeled(rs, k - 1));
                }
            }
        }
    }
}

/// Every region gets a cluster: cluster 0 for all when none has one; otherwise a region
/// without one takes the cluster of the clustered region whose midpoint is nearest its own.
pub open spec fn filled_clusters(rs: Seq<RegionView>) -> Seq<RegionView> {
    if !any_labeled(rs, rs.len() as int) {
        rs.map_values(|r: RegionView| RegionView { cluster_id: Some(0usize), ..r })
    } else {
        rs.map_values(
            |r: RegionView|
                if r.cluster_id is Some {
                    r
                } else {
                    RegionView {
                        cluster_id: rs[nearest_labeled(
                            rs,
                            midpoint(r.start_ms, r.end_ms),
                            rs.len() as int,
                        )->0].cluster_id,
                        ..r
                    }
                },
        )
    }
}

fn set_cluster(regions: &mut Vec<CandidateRegion>, i: usize, cluster_id: Option<usize>)
    requires
        i < old(regions)@.len(),
    ensures
        final(regions)@.len() == old(regions)@.len(),
        region_views(final(regions)@) == region_views(old(regions)@).update(
            i as int,
            RegionView { cluster_id, ..region_views(old(regions)@)[i as int] },
        ),
{
    let ghost before = regions@;
    let mut region = regions.remove(i);
    region.cluster_id = cluster_id;
    regions.insert(i, region);
    assert(region_views(regions@) =~= region_views(before).update(
        i as int,
        RegionView { cluster_id, ..region_views(before)[i as int] },
    ));
}

/// Gives a cluster to every region that has none.
pub fn assign_missing_cluster_ids(regions: &mut Vec<CandidateRegion>)
    requires
        any_labeled(region_views(old(regions)@), old(regions)@.len() as int) && (exists|j: int|
            0 <= j < old(regions)@.len() && (#[trigger] old(regions)@[j]).cluster_id is None)
            ==> forall|k: int|
            0 <= k < old(regions)@.len() ==> (#[trigger] old(regions)@[k]).start_ms
                + old(regions)@[k].end_ms <= u64::MAX,
    ensures
        region_views(final(regions)@) == filled_clusters(region_views(old(regions)@)),
{
    let ghost rs = region_views(regions@);
    let n = regions.len();
    let mut any = false;
    let mut was_labeled: Vec<bool> = Vec::new();
    for k in 0..n
        invariant
            n == regions@.len(),
            rs == region_views(regions@),
            any == any_labeled(rs, k as int),
            was_labeled@.len() == k,
            forall|j: int| 0 <= j < k ==> #[trigger] was_labeled@[j] == rs[j].cluster_id is Some,
    {
        was_labeled.push(regions[k].cluster_id.is_some());
        if regions[k].cluster_id.is_some() {
            any = true;
            assert(rs[k as int].cluster_id is Some);
        } else {
            assert forall|j: int| 0 <= j < k + 1 && j < rs.len() && (#[trigger] rs[j]).cluster_id is Some implies j < k by {}
        }
    }
    if !any {
        for i in 0..n
            invariant
                n == rs.len() == regions@.len(),
                forall|k: int|
                    0 <= k < i ==> #[trigger] region_views(regions@)[k] == (RegionView {
                        cluster_id: Some(0usize),
                        ..rs[k]
                    }),
                forall|k: int| i <= k < n ==> #[trigger] region_views(regions@)[k] == rs[k],
        {
            set_cluster(regions, i, Some(0));
        }
        assert(region_views(regions@) =~= filled_clusters(rs));
        return;
    }
    for i in 0..n
        invariant
            n == rs.len() == regions@.len(),
            was_labeled@.len() == n,
            forall|j: int| 0 <= j < n ==> #[trigger] was_labeled@[j] == rs[j].cluster_id is Some,
            any_labeled(rs, n as int),
            (exists|j: int| 0 <= j < n && (#[trigger] rs[j]).cluster_id is None) ==> forall|k: int|
                0 <= k < n ==> (#[trigger] rs[k]).start_ms + rs[k].end_ms <= u64::MAX,
            forall|k: int| 0 <= k < i ==> #[trigger] region_views(regions@)[k] == filled_clusters(rs)[k],
            forall|k: int| i <= k < n ==> #[trigger] region_views(regions@)[k] == rs[k],
            forall|k: int|
                0 <= k < n && rs[k].cluster_id is Some ==> #[trigger] region_views(regions@)[k] == rs[k],
    {
        if regions[i].cluster_id.is_none() {
            assert(region_views(regions@)[i as int] == rs[i as int]);
            assert(rs[i as int].cluster_id is None);
            let mid = (regions[i].start_ms + regions[i].end_ms) / 2;
            let mut best: Option<usize> = None;
            let mut best_distance: u64 = 0;
            for k in 0..n
                invariant
                    n == rs.len() == regions@.len(),
                    was_labeled@.len() == n,
                    forall|j: int| 0 <= j < n ==> #[trigger] was_labeled@[j] == rs[j].cluster_id is Some,
                    i < n,
                    forall|k: int|
                        0 <= k < n ==> (#[trigger] rs[k]).start_ms + rs[k].end_ms <= u64::MAX,
                    forall|k: int|
                        0 <= k < n && rs[k].cluster_id is Some ==> #[trigger] region_views(regions@)[k]
                            == rs[k],
                    match nearest_labeled(rs, mid as int, k as int) {
                        Some(j) => best == Some(j as usize) && 0 <= j < k && best_distance
                            == distance(mid as int, midpoint(rs[j].start_ms, rs[j].end_ms)),
                        None => best is None,
                    },
            {
                if was_labeled[k] {
                    assert(region_views(regions@)[k as int] == rs[k as int]);
                    let m = (regions[k].start_ms + regions[k].end_ms) / 2;
                    let d = if mid >= m {
                        mid - m
                    } else {
                        m - mid
                    };
                    match best {
                        None => {
                            best = Some(k);
                            best_distance = d;
                        },
                        Some(_) => {
                            if d < best_distance {
                                best = Some(k);
                                best_distance = d;
                            }
                        },
                    }
                }
            }
            proof {
                lemma_nearest_labeled(rs, mid as int, n as int);
            }
            let j = match best {
                Some(j) => j,
                None => 0,
            };
            let cluster = regions[j].cluster_id;
            assert(region_views(regions@)[j as int] == rs[j as int]);
            set_cluster(regions, i, cluster);
        }
    }
    assert(region_views(regions@) =~= filled_clusters(rs));
}

/// The earliest start among the first `k` regions of cluster `c`.
pub open spec fn cluster_start(rs: Seq<RegionView>, c: usize, k: int) -> Option<u64>
    decreases k,
{
    if k <= 0 {
        None
    } else {
        let prev = cluster_start(rs, c, k - 1);
        if rs[k - 1].cluster_id == Some(c) {
            match prev {
                None => Some(rs[k - 1].start_ms),
                Some(s) => Some(min_u64(s, rs[k - 1].start_ms)),
            }
        } else {
            prev
        }
    }
}

/// The clusters of the first `k` regions, each once, in order of first appearance.
pub open spec fn cluster_ids(rs: Seq<RegionView>, k: int) -> Seq<usize>
    decreases k,
{
    if k <= 0 {
        Seq::empty()
    } else {
        let prev = cluster_ids(rs, k - 1);
        match rs[k - 1].cluster_id {
            Some(c) => if prev.contains(c) {
                prev
            } else {
                prev.push(c)
            },
            None => prev,
        }
    }
}

/// Cluster `a` is labelled before cluster `b`: it starts earlier, or as early with a
/// smaller id.
pub open spec fn cluster_before(rs: Seq<RegionView>, a: usize, b: usize) -> bool {
    let sa = cluster_start(rs, a, rs.len() as int)->0;
    let sb = cluster_start(rs, b, rs.len() as int)->0;
    sa < sb || (sa == sb && a < b)
}

/// How many of the first `k` clusters in `ids` are labelled before `c`.
pub open spec fn rank_among(rs: Seq<RegionView>, ids: Seq<usize>, c: usize, k: int) -> nat
    decreases k,
{
    if k <= 0 {
        0
    } else {
        rank_among(rs, ids, c, k - 1) + if cluster_before(rs, ids[k - 1], c) {
            1nat
        } else {
            0nat
        }
    }
}

/// The speaker of a cluster: speakers are handed out in order of the clusters' earliest
/// starts (the smaller id first on equal starts); a cluster no region has gets the first.
pub open spec fn cluster_label(rs: Seq<RegionView>, c: usize) -> SpeakerLabel {
    let ids = cluster_ids(rs, rs.len() as int);
    if ids.contains(c) {
        label_for_index(rank_among(rs, ids, c, ids.len() as int) as int)
    } else {
        SpeakerLabel::S1
    }
}

pub proof fn lemma_cluster_ids(rs: Seq<RegionView>, k: int)
    requires
        0 <= k <= rs.len(),
    ensures
        cluster_ids(rs, k).len() <= k,
        forall|c: usize| #[trigger]
            cluster_ids(rs, k).contains(c) <==> cluster_start(rs, c, k) is Some,
    decreases k,
{
    if k > 0 {
        lemma_cluster_ids(rs, k - 1);
        let prev = cluster_ids(rs, k - 1);
        if let Some(c) = rs[k - 1].cluster_id {
            if !prev.contains(c) {
                assert forall|x: usize| #[trigger] prev.push(c).contains(x) <==> (prev.contains(x)
                    || x == c) by {
                    if x == c {
                        assert(prev.push(c)[prev.len() as int] == c);
                    }
                    if prev.contains(x) {
                        let j = choose|j: int| 0 <= j < prev.len() && prev[j] == x;
                        assert(prev.push(c)[j] == x);
                    }
                    if prev.push(c).contains(x) {
                        let j = choose|j: int| 0 <= j < prev.len() + 1 && prev.push(c)[j] == x;
                        if j < prev.len() {
                            assert(prev[j] == x);
                        }
                    }
                }
            }
        }
    }
}

/// The clusters with their earliest starts, and the speaker of a cluster from them.
struct ClusterStarts {
    ids: Vec<usize>,
    starts: Vec<u64>,
}

fn cluster_starts(regions: &Vec<CandidateRegion>) -> (r: ClusterStarts)
    ensures
        r.ids@ == cluster_ids(region_views(regions@), regions@.len() as int),
        r.starts@.len() == r.ids@.len(),
        forall|k: int|
            0 <= k < r.ids@.len() ==> cluster_start(
                region_views(regions@),
                #[trigger] r.ids@[k],
                regions@.len() as int,
            ) == Some(r.starts@[k]),
{
    let ghost rs = region_views(regions@);
    let mut ids: Vec<usize> = Vec::new();
    let mut starts: Vec<u64> = Vec::new();
    for i in 0..regions.len()
        invariant
            rs == region_views(regions@),
            ids@ == cluster_ids(rs, i as int),
            starts@.len() == ids@.len(),
            forall|k: int|
                0 <= k < ids@.len() ==> cluster_start(rs, #[trigger] ids@[k], i as int) == Some(
                    starts@[k],
                ),
    {
        proof {
            lemma_cluster_ids(rs, i as int);
        }
        if let Some(c) = regions[i].cluster_id {
            let start = regions[i].start_ms;
            let mut found = false;
            let mut k: usize = 0;
            while k < ids.len()
                invariant
                    rs == region_views(regions@),
                    i < regions@.len(),
                    rs[i as int].cluster_id == Some(c),
                    rs[i as int].start_ms == start,
                    starts@.len() == ids@.len(),
                    k <= ids@.len(),
                    found ==> ids@.contains(c),
                    !found ==> forall|j: int| 0 <= j < k ==> ids@[j] != c,
                    ids@ == cluster_ids(rs, i as int),
                    forall|j: int|
                        0 <= j < k ==> cluster_start(rs, #[trigger] ids@[j], i + 1) == Some(
                            starts@[j],
                        ),
                    forall|j: int|
                        k <= j < ids@.len() ==> cluster_start(rs, #[trigger] ids@[j], i as int)
                            == Some(starts@[j]),
                decreases ids@.len() - k,
            {
                if ids[k] == c {
                    found = true;
                    if start < starts[k] {
                        starts.set(k, start);
                    }
                }
                k = k + 1;
            }
            if !found {
                assert(!ids@.contains(c));
                ids.push(c);
                starts.push(start);
            }
        }
    }
    ClusterStarts { ids, starts }
}

fn label_of_cluster(cs: &ClusterStarts, c: usize, Ghost(rs): Ghost<Seq<RegionView>>) -> (r:
    SpeakerLabel)
    requires
        cs.ids@ == cluster_ids(rs, rs.len() as int),
        cs.starts@.len() == cs.ids@.len(),
        forall|k: int|
            0 <= k < cs.ids@.len() ==> cluster_start(rs, #[trigger] cs.ids@[k], rs.len() as int)
                == Some(cs.starts@[k]),
    ensures
        r == cluster_label(rs, c),
{
    let mut pos: Option<usize> = None;
    for k in 0..cs.ids.len()
        invariant
            pos matches Some(p) ==> p < cs.ids@.len() && cs.ids@[p as int] == c,
            pos is None ==> forall|j: int| 0 <= j < k ==> cs.ids@[j] != c,
    {
        if pos.is_none() && cs.ids[k] == c {
            pos = Some(k);
        }
    }
    match pos {
        None => {
            assert(!cs.ids@.contains(c));
            SpeakerLabel::S1
        },
        Some(p) => {
            assert(cs.ids@.contains(c));
            let sc = cs.starts[p];
            let mut rank: usize = 0;
            for k in 0..cs.ids.len()
                invariant
                    p < cs.ids@.len(),
                    cs.ids@[p as int] == c,
                    cs.starts@.len() == cs.ids@.len(),
                    sc == cs.starts@[p as int],
                    forall|j: int|
                        0 <= j < cs.ids@.len() ==> cluster_start(
                            rs,
                            #[trigger] cs.ids@[j],
                            rs.len() as int,
                        ) == Some(cs.starts@[j]),
                    rank == rank_among(rs, cs.ids@, c, k as int),
                    rank <= k,
            {
                let a = cs.ids[k];
                let sa = cs.starts[k];
                assert(cluster_start(rs, c, rs.len() as int) == Some(sc));
                if sa < sc || (sa == sc && a < c) {
                    rank = rank + 1;
                }
            }
            speaker_label_for_index(rank)
        },
    }
}

/// The region a segment overlaps the most among the first `k` clustered regions: on equal
/// overlap the one starting earliest, among full ties the later one.
pub open spec fn best_region(rs: Seq<RegionView>, s: u64, e: u64, k: int) -> Option<int>
    decreases k,
{
    if k <= 0 {
        None
    } else {
        let prev = best_region(rs, s, e, k - 1);
        let r = rs[k - 1];
        if r.cluster_id is None {
            prev
        } else {
            match prev {
                None => Some(k - 1),
                Some(j) => {
                    let o = overlap(s, e, r.start_ms, r.end_ms);
                    let oj = overlap(s, e, rs[j].start_ms, rs[j].end_ms);
                    if o > oj || (o == oj && r.start_ms <= rs[j].start_ms) {
                        Some(k - 1)
                    } else {
                        prev
                    }
                },
            }
        }
    }
}

/// Some clustered region overlaps the span.
pub open spec fn overlaps_region(rs: Seq<RegionView>, s: u64, e: u64) -> bool {
    match best_region(rs, s, e, rs.len() as int) {
        Some(j) => overlap(s, e, rs[j].start_ms, rs[j].end_ms) > 0,
        None => false,
    }
}

/// The speaker of a transcript segment: that of the cluster of the region it overlaps the
/// most; without overlap, that of the cluster whose region's midpoint is nearest its own
/// (cluster 0 when no region has a cluster).
pub open spec fn segment_label(rs: Seq<RegionView>, s: u64, e: u64) -> SpeakerLabel {
    if overlaps_region(rs, s, e) {
        cluster_label(rs, rs[best_region(rs, s, e, rs.len() as int)->0].cluster_id->0)
    } else {
        let c = match nearest_labeled(rs, midpoint(s, e), rs.len() as int) {
            Some(j) => rs[j].cluster_id->0,
            None => 0usize,
        };
        cluster_label(rs, c)
    }
}

pub proof fn lemma_best_region(rs: Seq<RegionView>, s: u64, e: u64, k: int)
    requires
        0 <= k <= rs.len(),
    ensures
        best_region(rs, s, e, k) matches Some(j) ==> 0 <= j < k && rs[j].cluster_id is Some,
    decreases k,
{
    if k > 0 {
        lemma_best_region(rs, s, e, k - 1);
    }
}

fn segment_label_exec(regions: &Vec<CandidateRegion>, cs: &ClusterStarts, s: u64, e: u64) -> (r:
    SpeakerLabel)
    requires
        cs.ids@ == cluster_ids(region_views(regions@), regions@.len() as int),
        cs.starts@.len() == cs.ids@.len(),
        forall|k: int|
            0 <= k < cs.ids@.len() ==> cluster_start(
                region_views(regions@),
                #[trigger] cs.ids@[k],
                regions@.len() as int,
            ) == Some(cs.starts@[k]),
        !overlaps_region(region_views(regions@), s, e) ==> s + e <= u64::MAX && forall|k: int|
            0 <= k < regions@.len() && (#[trigger] regions@[k]).cluster_id is Some
                ==> regions@[k].start_ms + regions@[k].end_ms <= u64::MAX,
    ensures
        r == segment_label(region_views(regions@), s, e),
{
    let ghost rs = region_views(regions@);
    let mut best: Option<usize> = None;
    let mut best_overlap: u64 = 0;
    for k in 0..regions.len()
        invariant
            rs == region_views(regions@),
            match best_region(rs, s, e, k as int) {
                Some(j) => best == Some(j as usize) && 0 <= j < k && best_overlap == overlap(
                    s,
                    e,
                    rs[j].start_ms,
                    rs[j].end_ms,
                ),
                None => best is None,
            },
    {
        if regions[k].cluster_id.is_some() {
            let o = overlap_ms(s, e, regions[k].start_ms, regions[k].end_ms);
            match best {
                None => {
                    best = Some(k);
                    best_overlap = o;
                },
                Some(j) => {
                    if o > best_overlap || (o == best_overlap && regions[k].start_ms
                        <= regions[j].start_ms) {
                        best = Some(k);
                        best_overlap = o;
                    }
                },
            }
        }
    }
    proof {
        lemma_best_region(rs, s, e, rs.len() as int);
    }
    if let Some(j) = best {
        if best_overlap > 0 {
            let c = match regions[j].cluster_id {
                Some(c) => c,
                None => 0,
            };
            return label_of_cluster(cs, c, Ghost(rs));
        }
    }
    let mid = (s + e) / 2;
    let mut near: Option<usize> = None;
    let mut near_distance: u64 = 0;
    for k in 0..regions.len()
        invariant
            rs == region_views(regions@),
            mid == midpoint(s, e),
            !overlaps_region(rs, s, e),
            forall|k: int|
                0 <= k < regions@.len() && (#[trigger] regions@[k]).cluster_id is Some
                    ==> regions@[k].start_ms + regions@[k].end_ms <= u64::MAX,
            match nearest_labeled(rs, mid as int, k as int) {
                Some(j) => near == Some(j as usize) && 0 <= j < k && near_distance == distance(
                    mid as int,
                    midpoint(rs[j].start_ms, rs[j].end_ms),
                ),
                None => near is None,
            },
    {
        if regions[k].cluster_id.is_some() {
            let m = (regions[k].start_ms + regions[k].end_ms) / 2;
            let d = if mid >= m {
                mid - m
            } else {
                m - mid
            };
            match near {
                None => {
                    near = Some(k);
                    near_distance = d;
                },
                Some(_) => {
                    if d < near_distance {
                        near = Some(k);
                        near_distance = d;
                    }
                },
            }
        }
    }
    proof {
        lemma_nearest_labeled(rs, mid as int, rs.len() as int);
    }
    let c = match near {
        Some(j) => match regions[j].cluster_id {
            Some(c) => c,
            None => 0,
        },
        None => 0,
    };
    label_of_cluster(cs, c, Ghost(rs))
}

/// The speaker of each transcript segment, from the clustered regions.
pub fn assign_segment_labels(transcript_segments: &[TranscriptSegment], regions: &Vec<CandidateRegion>) -> (r: Vec<SpeakerLabel>)
    requires
        forall|k: int|
            0 <= k < transcript_segments@.len() && !overlaps_region(
                region_views(regions@),
                (#[trigger] transcript_segments@[k]).start_ms,
                transcript_segments@[k].end_ms,
            ) ==> transcript_segments@[k].start_ms + transcript_segments@[k].end_ms <= u64::MAX
                && forall|j: int|
                0 <= j < regions@.len() && (#[trigger] regions@[j]).cluster_id is Some
                    ==> regions@[j].start_ms + regions@[j].end_ms <= u64::MAX,
    ensures
        r@.len() == transcript_segments@.len(),
        forall|k: int|
            0 <= k < r@.len() ==> #[trigger] r@[k] == segment_label(
                region_views(regions@),
                transcript_segments@[k].start_ms,
                transcript_segments@[k].end_ms,
            ),
{
    let cs = cluster_starts(regions);
    let mut labels: Vec<SpeakerLabel> = Vec::new();
    for i in 0..transcript_segments.len()
        invariant
            cs.ids@ == cluster_ids(region_views(regions@), regions@.len() as int),
            cs.starts@.len() == cs.ids@.len(),
            forall|k: int|
                0 <= k < cs.ids@.len() ==> cluster_start(
                    region_views(regions@),
                    #[trigger] cs.ids@[k],
                    regions@.len() as int,
                ) == Some(cs.starts@[k]),
            forall|k: int|
                0 <= k < transcript_segments@.len() && !overlaps_region(
                    region_views(regions@),
                    (#[trigger] transcript_segments@[k]).start_ms,
                    transcript_segments@[k].end_ms,
                ) ==> transcript_segments@[k].start_ms + transcript_segments@[k].end_ms
                    <= u64::MAX && forall|j: int|
                    0 <= j < regions@.len() && (#[trigger] regions@[j]).cluster_id is Some
                        ==> regions@[j].start_ms + regions@[j].end_ms <= u64::MAX,
            labels@.len() == i,
            forall|k: int|
                0 <= k < i ==> #[trigger] labels@[k] == segment_label(
                    region_views(regions@),
                    transcript_segments@[k].start_ms,
                    transcript_segments@[k].end_ms,
                ),
    {
        let seg = &transcript_segments[i];
        let l = segment_label_exec(regions, &cs, seg.start_ms, seg.end_ms);
        labels.push(l);
    }
    labels
}

pub const NO_PIPELINE_WARNING: &'static str = "Ambient diarization assets are installed without pipeline metadata; using built-in native diarization.";
pub const NOT_INSTALLED_WARNING: &'static str = "Ambient diarization assets are not installed; using built-in native diarization.";
pub const MODEL_ENGINE: &'static str = "native_diarization_ort_coreml_v1";
pub const BUILTIN_ENGINE: &'static str = "native_diarization_builtin_v1";

/// The native final pass needs transcript segments and audio.
pub fn native_final_pass_input_check(segment_count: usize, sample_count: usize) -> (r: Result<(), String>)
    ensures
        segment_count == 0 ==> (r matches Err(e) && e@
            == "Native ambient final pass received no transcript segments."@),
        segment_count != 0 && sample_count == 0 ==> (r matches Err(e) && e@
            == "Native ambient final pass received no audio samples."@),
        segment_count != 0 && sample_count != 0 ==> r is Ok,
{
    if segment_count == 0 {
        return Err("Native ambient final pass received no transcript segments.".to_string());
    }
    if sample_count == 0 {
        return Err("Native ambient final pass received no audio samples.".to_string());
    }
    Ok(())
}

/// How the native final pass goes on after looking for installed assets.
pub struct AssetChoice {
    pub asset_version: String,
    pub warning: Option<String>,
    pub use_models: bool,
}

/// Installed assets with pipeline metadata are used; installed ones without it, missing
/// ones and a failure to look leave the built-in diarization, with a warning saying why.
/// `discovered` holds the installed asset version and whether it has pipeline metadata.
pub fn native_asset_choice(discovered: Result<Option<(String, bool)>, String>) -> (r: AssetChoice)
    ensures
        match discovered {
            Ok(Some((v, true))) => r.asset_version@ == v@ && r.warning is None && r.use_models,
            Ok(Some((v, false))) => r.asset_version@ == v@ && (r.warning matches Some(w) && w@
                == NO_PIPELINE_WARNING@) && !r.use_models,
            Ok(None) => r.asset_version@ == crate::assets::BUILTIN_ASSET_VERSION@ && (
            r.warning matches Some(w) && w@ == NOT_INSTALLED_WARNING@) && !r.use_models,
            Err(e) => r.asset_version@ == crate::assets::BUILTIN_ASSET_VERSION@ && (
            r.warning matches Some(w) && w@
                == "Ambient diarization assets are unavailable; using built-in native diarization. "@
                + e@) && !r.use_models,
        },
{
    match discovered {
        Ok(Some((v, has_pipeline))) => {
            if has_pipeline {
                AssetChoice { asset_version: v, warning: None, use_models: true }
            } else {
                AssetChoice {
                    asset_version: v,
                    warning: Some(NO_PIPELINE_WARNING.to_string()),
                    use_models: false,
                }
            }
        },
        Ok(None) => AssetChoice {
            asset_version: crate::assets::BUILTIN_ASSET_VERSION.to_string(),
            warning: Some(NOT_INSTALLED_WARNING.to_string()),
            use_models: false,
        },
        Err(e) => {
            let mut out = to_chars("Ambient diarization assets are unavailable; using built-in native diarization. ");
            crate::text::append_vec(&mut out, &to_chars(e.as_str()));
            AssetChoice {
                asset_version: crate::assets::BUILTIN_ASSET_VERSION.to_string(),
                warning: Some(crate::text::from_chars(&out)),
                use_models: false,
            }
        },
    }
}

/// The warning when the model runtime fails and the built-in diarization takes over.
pub fn model_runtime_failure_warning(err: &str) -> (r: String)
    ensures
        r@ == "Ambient diarization model runtime failed; using built-in native diarization. "@ + err@,
{
    let mut out = to_chars("Ambient diarization model runtime failed; using built-in native diarization. ");
    crate::text::append_vec(&mut out, &to_chars(err));
    crate::text::from_chars(&out)
}

/// The end of the native final pass once the regions are clustered: each transcript
/// segment labelled by the regions, the labelled segments merged into the session's
/// segments, the plain transcript, and the number of speakers (one when nothing is left).
pub fn native_assignment(
    transcript_segments: &[TranscriptSegment],
    regions: &Vec<CandidateRegion>,
    transcript_text: &str,
) -> (r: (Vec<crate::ambient::CanonicalSegment>, String, usize))
    requires
        forall|k: int|
            0 <= k < transcript_segments@.len() && !overlaps_region(
                region_views(regions@),
                (#[trigger] transcript_segments@[k]).start_ms,
                transcript_segments@[k].end_ms,
            ) ==> transcript_segments@[k].start_ms + transcript_segments@[k].end_ms <= u64::MAX
                && forall|j: int|
                0 <= j < regions@.len() && (#[trigger] regions@[j]).cluster_id is Some
                    ==> regions@[j].start_ms + regions@[j].end_ms <= u64::MAX,
        forall|k: int|
            0 <= k < transcript_segments@.len() ==> (#[trigger] transcript_segments@[k]).start_ms
                < u64::MAX,
        transcript_segments@.len() < u64::MAX,
    ensures
        ({
            let labels = Seq::new(
                transcript_segments@.len(),
                |k: int|
                    segment_label(
                        region_views(regions@),
                        transcript_segments@[k].start_ms,
                        transcript_segments@[k].end_ms,
                    ),
            );
            let segs = crate::diarization::build_segments(
                crate::diarization::transcript_views(transcript_segments@),
                labels,
            );
            &&& crate::ambient::seg_views(r.0@) == segs
            &&& r.1@ == crate::diarization::plain_text(
                crate::diarization::transcript_texts(transcript_segments@),
                transcript_text@,
            )
            &&& r.2 == if segs.len() == 0 {
                1
            } else {
                crate::diarization::speaker_count(segs) as int
            }
        }),
{
    let labels = assign_segment_labels(transcript_segments, regions);
    assert(labels@ =~= Seq::new(
        transcript_segments@.len(),
        |k: int|
            segment_label(
                region_views(regions@),
                transcript_segments@[k].start_ms,
                transcript_segments@[k].end_ms,
            ),
    ));
    let segments = crate::diarization::build_canonical_segments(transcript_segments, labels.as_slice());
    let detected = if segments.len() == 0 {
        1
    } else {
        crate::diarization::unique_speaker_count(segments.as_slice())
    };
    let text = crate::diarization::plain_transcript(transcript_segments, transcript_text);
    (segments, text, detected)
}


/// The runtime backend named when the built-in diarization builds the regions.
pub const BUILTIN_RUNTIME_BACKEND: &'static str = "builtin_mfcc_v1";

/// How the regions of the native final pass were built.
pub enum RegionSource {
    /// By the installed models, on this runtime backend.
    Models(String),
    /// By the built-in diarization, after the model runtime failed with this error.
    ModelsFailed(String),
    /// By the built-in diarization, because the models were not to be used.
    Builtin,
}

/// The timings of the native final pass, in milliseconds.
pub struct NativePassTimings {
    pub segmentation_ms: u64,
    pub embedding_ms: u64,
    pub clustering_ms: u64,
    pub assignment_ms: u64,
    pub total_ms: u64,
}

/// The result of the native final pass: the engine and runtime backend that built the
/// regions, the asset version and warning of the asset choice (replaced by the runtime
/// failure where the models failed), the labelled segments, the plain transcript, the
/// number of speakers, and the timings, with the diarization time the sum of segmentation,
/// embedding and clustering.
pub fn native_final_pass_result(
    choice: AssetChoice,
    source: RegionSource,
    segments: Vec<crate::ambient::CanonicalSegment>,
    transcript_text: String,
    detected_speakers: usize,
    timings: NativePassTimings,
) -> (r: crate::final_pass::AmbientFinalPassResult)
    requires
        timings.segmentation_ms + timings.embedding_ms + timings.clustering_ms <= u64::MAX,
    ensures
        r.engine@ == (if source is Models {
            MODEL_ENGINE@
        } else {
            BUILTIN_ENGINE@
        }),
        r.transcript_text == transcript_text,
        r.segments == segments,
        crate::markdown::opt_string_view(&r.diagnostics.asset_version) == Some(choice.asset_version@),
        crate::markdown::opt_string_view(&r.diagnostics.runtime_backend) == Some(
            match source {
                RegionSource::Models(b) => b@,
                _ => BUILTIN_RUNTIME_BACKEND@,
            },
        ),
        crate::markdown::opt_string_view(&r.diagnostics.warning) == match source {
            RegionSource::ModelsFailed(e) => Some(
                "Ambient diarization model runtime failed; using built-in native diarization. "@
                    + e@,
            ),
            _ => crate::markdown::opt_string_view(&choice.warning),
        },
        r.diagnostics.detected_speakers == detected_speakers,
        r.diagnostics.transcription_ms == 0,
        r.diagnostics.alignment_ms == 0,
        r.diagnostics.diarization_ms == timings.segmentation_ms + timings.embedding_ms
            + timings.clustering_ms,
        r.diagnostics.assignment_ms == timings.assignment_ms,
        r.diagnostics.segmentation_ms == timings.segmentation_ms,
        r.diagnostics.embedding_ms == timings.embedding_ms,
        r.diagnostics.clustering_ms == timings.clustering_ms,
        r.diagnostics.total_ms == timings.total_ms,
{
    let (engine, backend, warning) = match source {
        RegionSource::Models(b) => (MODEL_ENGINE.to_string(), b, choice.warning),
        RegionSource::ModelsFailed(e) => (
            BUILTIN_ENGINE.to_string(),
            BUILTIN_RUNTIME_BACKEND.to_string(),
            Some(model_runtime_failure_warning(e.as_str())),
        ),
        RegionSource::Builtin => (
            BUILTIN_ENGINE.to_string(),
            BUILTIN_RUNTIME_BACKEND.to_string(),
            choice.warning,
        ),
    };
    crate::final_pass::AmbientFinalPassResult {
        engine,
        transcript_text,
        segments,
        diagnostics: crate::final_pass::AmbientFinalPassDiagnostics {
            asset_version: Some(choice.asset_version),
            runtime_backend: Some(backend),
            warning,
            detected_speakers,
            transcription_ms: 0,
            alignment_ms: 0,
            diarization_ms: timings.segmentation_ms + timings.embedding_ms + timings.clustering_ms,
            assignment_ms: timings.assignment_ms,
            segmentation_ms: timings.segmentation_ms,
            embedding_ms: timings.embedding_ms,
            clustering_ms: timings.clustering_ms,
            total_ms: timings.total_ms,
        },
    }
}

} // verus!
