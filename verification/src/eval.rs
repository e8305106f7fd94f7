//! The integer cores of the evaluation metrics: word edit distance, turn boundary matching
//! and the best pairing of reference and predicted speakers.
use vstd::prelude::*;
use crate::text::{
    chars_eq, lower, split_words, to_chars, trim_cls, trimmed, views, words, CharClass,
};
use crate::transcript::nonempty_only;
use crate::ambient::{CanonicalSegment, SpeakerLabel};
use crate::diarization::{collect_with_index, overlap, overlap_ms, sorted_by_index, speakers_of};
use crate::ambient::seg_views;
use crate::hardware::{AppleChipTier, MachineFamily, MachineProfile};
use crate::text::concat3;

verus! {

pub open spec fn min3(a: int, b: int, c: int) -> int {
    if a <= b && a <= c {
        a
    } else if b <= c {
        b
    } else {
        c
    }
}

/// The fewest word insertions, deletions and substitutions that turn `a` into `b`.
pub open spec fn edit_distance(a: Seq<Seq<char>>, b: Seq<Seq<char>>) -> nat
    decreases a.len() + b.len(),
{
    if a.len() == 0 {
        b.len()
    } else if b.len() == 0 {
        a.len()
    } else {
        min3(
            edit_distance(a.drop_last(), b) + 1int,
            edit_distance(a, b.drop_last()) + 1int,
            edit_distance(a.drop_last(), b.drop_last()) as int + if a.last() == b.last() {
                0int
            } else {
                1int
            },
        ) as nat
    }
}

/// No more edits than the longer sequence has words.
pub proof fn lemma_edit_distance_bound(a: Seq<Seq<char>>, b: Seq<Seq<char>>)
    ensures
        edit_distance(a, b) <= if a.len() >= b.len() {
            a.len()
        } else {
            b.len()
        },
    decreases a.len() + b.len(),
{
    if a.len() > 0 && b.len() > 0 {
        lemma_edit_distance_bound(a.drop_last(), b.drop_last());
    }
}

/// The word edit distance between the reference and the hypothesis, by dynamic
/// programming over one row at a time.
pub fn word_edit_distance(reference: &Vec<Vec<char>>, hypothesis: &Vec<Vec<char>>) -> (r: usize)
    requires
        reference@.len() < usize::MAX,
        hypothesis@.len() < usize::MAX,
    ensures
        r == edit_distance(views(reference@), views(hypothesis@)),
{
    let ghost a = views(reference@);
    let ghost b = views(hypothesis@);
    let n = reference.len();
    let m = hypothesis.len();
    let mut prev: Vec<usize> = Vec::new();
    for j in 0..m + 1
        invariant
            m < usize::MAX,
            b == views(hypothesis@),
            m == b.len(),
            prev@.len() == j,
            forall|k: int| 0 <= k < j ==> #[trigger] prev@[k] == edit_distance(a.take(0), b.take(k)),
    {
        assert(a.take(0).len() == 0);
        prev.push(j);
    }
    for i in 1..n + 1
        invariant
            n < usize::MAX,
            m < usize::MAX,
            a == views(reference@),
            b == views(hypothesis@),
            n == a.len(),
            m == b.len(),
            prev@.len() == m + 1,
            forall|k: int|
                0 <= k <= m ==> #[trigger] prev@[k] == edit_distance(a.take(i - 1), b.take(k)),
    {
        let mut cur: Vec<usize> = Vec::new();
        proof {
            assert(b.take(0).len() == 0);
            assert(a.take(i as int).len() == i);
        }
        cur.push(i);
        proof {
            assert(a.take(i as int).drop_last() =~= a.take(i - 1));
            assert(a.take(i as int).last() == a[i - 1]);
        }
        for j in 1..m + 1
            invariant
                1 <= i <= n,
                n < usize::MAX,
                m < usize::MAX,
                a == views(reference@),
                b == views(hypothesis@),
                n == a.len(),
                m == b.len(),
                prev@.len() == m + 1,
                forall|k: int|
                    0 <= k <= m ==> #[trigger] prev@[k] == edit_distance(a.take(i - 1), b.take(k)),
                cur@.len() == j,
                forall|k: int|
                    0 <= k < j ==> #[trigger] cur@[k] == edit_distance(a.take(i as int), b.take(k)),
                a.take(i as int).drop_last() == a.take(i - 1),
                a.take(i as int).last() == a[i - 1],
        {
            proof {
                assert(b.take(j as int).drop_last() =~= b.take(j - 1));
                assert(b.take(j as int).last() == b[j - 1]);
                lemma_edit_distance_bound(a.take(i - 1), b.take(j as int));
                lemma_edit_distance_bound(a.take(i as int), b.take(j - 1));
                lemma_edit_distance_bound(a.take(i - 1), b.take(j - 1));
            }
            let same = chars_eq(&reference[i - 1], &hypothesis[j - 1]);
            let cost: usize = if same {
                0
            } else {
                1
            };
            let del = prev[j] + 1;
            let ins = cur[j - 1] + 1;
            let sub = prev[j - 1] + cost;
            let best = if del <= ins && del <= sub {
                del
            } else if ins <= sub {
                ins
            } else {
                sub
            };
            cur.push(best);
        }
        prev = cur;
    }
    proof {
        assert(a.take(n as int) =~= a);
        assert(b.take(m as int) =~= b);
    }
    prev[m]
}

/// What `str::to_lowercase` gives for the text.
pub uninterp spec fn lowercase(s: Seq<char>) -> Seq<char>;

/// Calls `str::to_lowercase`: the text in Unicode lower case, named by `lowercase`. For an
/// ASCII text that is its ASCII lower case; beyond ASCII nothing more is stated.
#[verifier::external_body]
fn str_to_lowercase(s: &str) -> (r: String)
    ensures
        r@ == lowercase(s@),
        (forall|k: int| 0 <= k < s@.len() ==> (#[trigger] s@[k] as u32) < 128) ==> r@ == lower(s@),
{
    s.to_lowercase()
}

/// The words compared by the word error rate: the text in lower case, cut at whitespace,
/// each word without the non-alphanumeric characters (apostrophes kept) at its ends, and
/// the empty ones dropped.
pub open spec fn eval_words(text: Seq<char>) -> Seq<Seq<char>> {
    nonempty_only(
        words(lowercase(text)).map_values(|w: Seq<char>| trim_cls(w, CharClass::TokenEdge)),
    )
}

pub fn normalized_words(text: &str) -> (r: Vec<Vec<char>>)
    ensures
        views(r@) == eval_words(text@),
{
    let lowered = str_to_lowercase(text);
    let c = to_chars(lowered.as_str());
    let ws = split_words(&c);
    let ghost trimmed_words = words(lowercase(text@)).map_values(
        |w: Seq<char>| trim_cls(w, CharClass::TokenEdge),
    );
    let mut out: Vec<Vec<char>> = Vec::new();
    for i in 0..ws.len()
        invariant
            c@ == lowercase(text@),
            ws@.len() == words(c@).len(),
            forall|k: int| 0 <= k < ws@.len() ==> (#[trigger] ws@[k])@ == words(c@)[k],
            trimmed_words == words(lowercase(text@)).map_values(
                |w: Seq<char>| trim_cls(w, CharClass::TokenEdge),
            ),
            views(out@) == nonempty_only(trimmed_words.take(i as int)),
    {
        let t = trimmed(&ws[i], CharClass::TokenEdge);
        assert(trimmed_words.take(i + 1).drop_last() =~= trimmed_words.take(i as int));
        assert(trimmed_words.take(i + 1).last() == t@);
        if t.len() > 0 {
            proof {
                crate::text::lemma_views_push(out@, t);
            }
            out.push(t);
        }
    }
    assert(trimmed_words.take(ws.len() as int) =~= trimmed_words);
    out
}

/// The word error counts of a hypothesis against a reference: the word edit distance
/// between them, and the number of reference words (the rate is their ratio, and zero
/// without reference words). None only for word lists too long to count in a `usize`.
pub fn word_error_counts(reference: &str, hypothesis: &str) -> (r: Option<(usize, usize)>)
    ensures
        (eval_words(reference@).len() < usize::MAX && eval_words(hypothesis@).len() < usize::MAX)
            <==> r is Some,
        r matches Some((d, n)) ==> d == edit_distance(eval_words(reference@), eval_words(hypothesis@))
            && n == eval_words(reference@).len(),
{
    let rw = normalized_words(reference);
    let hw = normalized_words(hypothesis);
    if rw.len() == usize::MAX || hw.len() == usize::MAX {
        return None;
    }
    let d = word_edit_distance(&rw, &hw);
    Some((d, rw.len()))
}

/// A speaker turn of a hand-labelled reference transcript.
pub struct ReferenceTurn {
    pub start_ms: u64,
    pub end_ms: u64,
    pub speaker: String,
}

/// `a.abs_diff(b)`.
pub open spec fn delta(a: u64, b: u64) -> int {
    if a >= b {
        a - b
    } else {
        b - a
    }
}

/// The reference boundary that a predicted boundary `b` matches among the first `k`: the
/// closest one not matched yet within the tolerance, the earliest on ties; with its
/// distance, which is one more than the tolerance when there is none.
pub open spec fn best_reference(
    refs: Seq<u64>,
    matched: Seq<bool>,
    b: u64,
    tol: u64,
    k: int,
) -> (Option<int>, int)
    decreases k,
{
    if k <= 0 {
        (None, tol + 1)
    } else {
        let (bi, bd) = best_reference(refs, matched, b, tol, k - 1);
        let d = delta(b, refs[k - 1]);
        if !matched[k - 1] && d <= tol && d < bd {
            (Some(k - 1), d)
        } else {
            (bi, bd)
        }
    }
}

/// The greedy matching after the first `n` predicted boundaries: which reference boundaries
/// are taken, and how many matches were made.
pub open spec fn boundary_matching(refs: Seq<u64>, preds: Seq<u64>, tol: u64, n: int) -> (
    Seq<bool>,
    nat,
)
    decreases n,
{
    if n <= 0 {
        (Seq::new(refs.len(), |i: int| false), 0)
    } else {
        let (m, c) = boundary_matching(refs, preds, tol, n - 1);
        match best_reference(refs, m, preds[n - 1], tol, refs.len() as int).0 {
            Some(i) => (m.update(i, true), c + 1),
            None => (m, c),
        }
    }
}

pub proof fn lemma_best_reference(refs: Seq<u64>, matched: Seq<bool>, b: u64, tol: u64, k: int)
    requires
        0 <= k <= refs.len(),
        matched.len() == refs.len(),
    ensures
        ({
            let (bi, bd) = best_reference(refs, matched, b, tol, k);
            &&& bd <= tol + 1
            &&& match bi {
                Some(i) => 0 <= i < k && !matched[i] && bd == delta(b, refs[i]) && bd <= tol,
                None => bd == tol + 1,
            }
        }),
    decreases k,
{
    if k > 0 {
        lemma_best_reference(refs, matched, b, tol, k - 1);
    }
}

pub proof fn lemma_boundary_matching(refs: Seq<u64>, preds: Seq<u64>, tol: u64, n: int)
    requires
        0 <= n <= preds.len(),
    ensures
        boundary_matching(refs, preds, tol, n).0.len() == refs.len(),
        boundary_matching(refs, preds, tol, n).1 <= n,
    decreases n,
{
    if n > 0 {
        lemma_boundary_matching(refs, preds, tol, n - 1);
        let (m, c) = boundary_matching(refs, preds, tol, n - 1);
        lemma_best_reference(refs, m, preds[n - 1], tol, refs.len() as int);
    }
}

/// Among the first `k` reference boundaries, the one picked is unmatched, within the
/// tolerance and at least as close as every other such one, and before it on equal
/// distance; none is picked only where there is no such one.
proof fn lemma_best_reference_closest(refs: Seq<u64>, matched: Seq<bool>, b: u64, tol: u64, k: int)
    requires
        0 <= k <= refs.len(),
        matched.len() == refs.len(),
    ensures
        match best_reference(refs, matched, b, tol, k).0 {
            Some(i) => 0 <= i < k && !matched[i] && delta(b, refs[i]) <= tol && best_reference(
                refs,
                matched,
                b,
                tol,
                k,
            ).1 == delta(b, refs[i]) && forall|j: int|
                0 <= j < k && !matched[j] && delta(b, refs[j]) <= tol ==> delta(b, refs[i]) < delta(
                    b,
                    #[trigger] refs[j],
                ) || (delta(b, refs[i]) == delta(b, refs[j]) && i <= j),
            None => best_reference(refs, matched, b, tol, k).1 == tol + 1 && forall|j: int|
                0 <= j < k && !matched[j] ==> delta(b, #[trigger] refs[j]) > tol,
        },
    decreases k,
{
    if k > 0 {
        lemma_best_reference_closest(refs, matched, b, tol, k - 1);
    }
}

/// The greedy boundary matching pairs each predicted boundary, in order, with the closest
/// reference boundary that is not matched yet and lies within the tolerance (the earliest
/// of equally close ones), and makes no pair where there is none: after `n + 1` predicted
/// boundaries, the matching is that after `n` with that one reference boundary taken and
/// one more match, or unchanged.
pub proof fn lemma_boundary_matching_closest(refs: Seq<u64>, preds: Seq<u64>, tol: u64, n: int)
    requires
        0 <= n < preds.len(),
    ensures
        ({
            let (m, c) = boundary_matching(refs, preds, tol, n);
            let (m2, c2) = boundary_matching(refs, preds, tol, n + 1);
            let b = preds[n];
            &&& m.len() == refs.len()
            &&& (exists|j: int| 0 <= j < refs.len() && !m[j] && delta(b, #[trigger] refs[j]) <= tol)
                ==> (exists|i: int|
                0 <= i < refs.len() && !m[i] && delta(b, refs[i]) <= tol && m2 == m.update(i, true)
                    && c2 == c + 1 && forall|j: int|
                    0 <= j < refs.len() && !m[j] && delta(b, refs[j]) <= tol ==> delta(b, refs[i])
                        < delta(b, #[trigger] refs[j]) || (delta(b, refs[i]) == delta(b, refs[j])
                        && i <= j))
            &&& !(exists|j: int| 0 <= j < refs.len() && !m[j] && delta(b, #[trigger] refs[j]) <= tol)
                ==> m2 == m && c2 == c
        }),
{
    lemma_boundary_matching(refs, preds, tol, n);
    let (m, c) = boundary_matching(refs, preds, tol, n);
    lemma_best_reference_closest(refs, m, preds[n], tol, refs.len() as int);
    match best_reference(refs, m, preds[n], tol, refs.len() as int).0 {
        Some(i) => {
            assert(0 <= i < refs.len() && !m[i] && delta(preds[n], refs[i]) <= tol);
        },
        None => {},
    }
}

/// The number of predicted boundaries that the greedy matching pairs with a reference
/// boundary within the tolerance.
pub fn boundary_matches(reference: &Vec<u64>, predicted: &Vec<u64>, tolerance_ms: u64) -> (r:
    usize)
    requires
        tolerance_ms < u64::MAX,
    ensures
        r == boundary_matching(reference@, predicted@, tolerance_ms, predicted@.len() as int).1,
        r <= predicted@.len(),
{
    let mut matched: Vec<bool> = Vec::new();
    for k in 0..reference.len()
        invariant
            matched@.len() == k,
            forall|j: int| 0 <= j < k ==> !#[trigger] matched@[j],
    {
        matched.push(false);
    }
    assert(matched@ =~= boundary_matching(reference@, predicted@, tolerance_ms, 0).0);
    let mut matches: usize = 0;
    for p in 0..predicted.len()
        invariant
            tolerance_ms < u64::MAX,
            (matched@, matches as nat) == boundary_matching(
                reference@,
                predicted@,
                tolerance_ms,
                p as int,
            ),
            matched@.len() == reference@.len(),
            matches <= p,
    {
        let boundary = predicted[p];
        let mut best_index: Option<usize> = None;
        let mut best_delta: u64 = tolerance_ms + 1;
        for k in 0..reference.len()
            invariant
                tolerance_ms < u64::MAX,
                matched@.len() == reference@.len(),
                boundary == predicted@[p as int],
                ({
                    let (bi, bd) = best_reference(
                        reference@,
                        matched@,
                        boundary,
                        tolerance_ms,
                        k as int,
                    );
                    &&& bd == best_delta as int
                    &&& match bi {
                        Some(i) => best_index == Some(i as usize),
                        None => best_index is None,
                    }
                }),
        {
            proof {
                lemma_best_reference(reference@, matched@, boundary, tolerance_ms, k as int);
            }
            if !matched[k] {
                let candidate = reference[k];
                let d = if boundary >= candidate {
                    boundary - candidate
                } else {
                    candidate - boundary
                };
                if d <= tolerance_ms && d < best_delta {
                    best_delta = d;
                    best_index = Some(k);
                }
            }
        }
        proof {
            lemma_best_reference(
                reference@,
                matched@,
                boundary,
                tolerance_ms,
                reference@.len() as int,
            );
        }
        if let Some(i) = best_index {
            matched.set(i, true);
            matches = matches + 1;
        }
    }
    matches
}

/// The times after the first: the boundaries between consecutive turns.
pub open spec fn boundaries(starts: Seq<u64>) -> Seq<u64> {
    if starts.len() > 0 {
        starts.drop_first()
    } else {
        starts
    }
}

pub open spec fn reference_starts(turns: Seq<ReferenceTurn>) -> Seq<u64> {
    turns.map_values(|t: ReferenceTurn| t.start_ms)
}

pub open spec fn segment_starts(segs: Seq<crate::ambient::CanonicalSegment>) -> Seq<u64> {
    segs.map_values(|s: crate::ambient::CanonicalSegment| s.start_ms)
}

fn boundaries_exec(starts: &Vec<u64>) -> (r: Vec<u64>)
    ensures
        r@ == boundaries(starts@),
{
    let mut out: Vec<u64> = Vec::new();
    for i in 0..starts.len()
        invariant
            i > 0 ==> out@ == starts@.subrange(1, i as int),
            i == 0 ==> out@.len() == 0,
    {
        if i > 0 {
            out.push(starts[i]);
            assert(out@ =~= starts@.subrange(1, i + 1));
        }
    }
    proof {
        if starts@.len() > 0 {
            assert(out@ =~= starts@.drop_first());
        } else {
            assert(out@ =~= starts@);
        }
    }
    out
}

/// The boundary counts of a segmentation against the reference turns: how many predicted
/// turn starts (all but the first) the greedy matching pairs with a reference turn start
/// (all but the first), how many reference boundaries there are, and how many predicted
/// ones.
pub fn turn_boundary_counts(
    reference_turns: &[ReferenceTurn],
    segments: &[crate::ambient::CanonicalSegment],
    tolerance_ms: u64,
) -> (r: (usize, usize, usize))
    requires
        tolerance_ms < u64::MAX,
    ensures
        ({
            let refs = boundaries(reference_starts(reference_turns@));
            let preds = boundaries(segment_starts(segments@));
            &&& r.0 == boundary_matching(refs, preds, tolerance_ms, preds.len() as int).1
            &&& r.1 == refs.len()
            &&& r.2 == preds.len()
        }),
{
    let mut rs: Vec<u64> = Vec::new();
    for i in 0..reference_turns.len()
        invariant
            rs@ == reference_starts(reference_turns@).take(i as int),
    {
        rs.push(reference_turns[i].start_ms);
        assert(rs@ =~= reference_starts(reference_turns@).take(i + 1));
    }
    assert(rs@ =~= reference_starts(reference_turns@));
    let mut ss: Vec<u64> = Vec::new();
    for i in 0..segments.len()
        invariant
            ss@ == segment_starts(segments@).take(i as int),
    {
        ss.push(segments[i].start_ms);
        assert(ss@ =~= segment_starts(segments@).take(i + 1));
    }
    assert(ss@ =~= segment_starts(segments@));
    let refs = boundaries_exec(&rs);
    let preds = boundaries_exec(&ss);
    let matches = boundary_matches(&refs, &preds, tolerance_ms);
    (matches, refs.len(), preds.len())
}

/// The largest total overlap that rows `r..` can add when each row is paired with at most
/// one column not in `used`, each column with at most one row.
pub open spec fn best_from(ov: Seq<Seq<u64>>, r: int, used: Seq<bool>) -> int
    decreases ov.len() - r, used.len() + 1,
{
    if r < 0 || r >= ov.len() {
        0
    } else {
        best_choice(ov, r, used, used.len() as int)
    }
}

/// The best of leaving row `r` unpaired and pairing it with one free column below `k`.
pub open spec fn best_choice(ov: Seq<Seq<u64>>, r: int, used: Seq<bool>, k: int) -> int
    decreases ov.len() - r, k,
{
    if r < 0 || r >= ov.len() {
        0
    } else if k <= 0 {
        best_from(ov, r + 1, used)
    } else {
        let rest = best_choice(ov, r, used, k - 1);
        if k - 1 < used.len() && !used[k - 1] {
            let take = ov[r][k - 1] + best_from(ov, r + 1, used.update(k - 1, true));
            if take > rest {
                take
            } else {
                rest
            }
        } else {
            rest
        }
    }
}

pub proof fn lemma_best_from_nonneg(ov: Seq<Seq<u64>>, r: int, used: Seq<bool>)
    ensures
        best_from(ov, r, used) >= 0,
    decreases ov.len() - r, used.len() + 1,
{
    if 0 <= r < ov.len() {
        lemma_best_choice_nonneg(ov, r, used, used.len() as int);
    }
}

pub proof fn lemma_best_choice_nonneg(ov: Seq<Seq<u64>>, r: int, used: Seq<bool>, k: int)
    ensures
        best_choice(ov, r, used, k) >= 0,
    decreases ov.len() - r, k,
{
    if 0 <= r < ov.len() {
        if k <= 0 {
            lemma_best_from_nonneg(ov, r + 1, used);
        } else {
            lemma_best_choice_nonneg(ov, r, used, k - 1);
        }
    }
}

/// Looking at more columns never lowers the best choice.
pub proof fn lemma_best_choice_mono(ov: Seq<Seq<u64>>, r: int, used: Seq<bool>, j: int, k: int)
    requires
        0 <= j <= k,
    ensures
        best_choice(ov, r, used, j) <= best_choice(ov, r, used, k),
    decreases k - j,
{
    if j < k {
        lemma_best_choice_mono(ov, r, used, j, k - 1);
    }
}

/// `best_overlap_assignment`: the running total plus the best that rows
/// `reference_index..` can add, searching every pairing; the used columns are as before.
pub fn best_overlap_assignment(
    overlaps: &Vec<Vec<u64>>,
    reference_index: usize,
    current_total: u64,
    used_predicted: &mut Vec<bool>,
) -> (r: u64)
    requires
        forall|k: int| 0 <= k < overlaps@.len() ==> (#[trigger] overlaps@[k])@.len() >= old(
            used_predicted,
        )@.len(),
        current_total + best_from(
            overlaps@.map_values(|row: Vec<u64>| row@),
            reference_index as int,
            old(used_predicted)@,
        ) <= u64::MAX,
    ensures
        r == current_total + best_from(
            overlaps@.map_values(|row: Vec<u64>| row@),
            reference_index as int,
            old(used_predicted)@,
        ),
        final(used_predicted)@ == old(used_predicted)@,
    decreases overlaps@.len() - reference_index,
{
    let ghost ov = overlaps@.map_values(|row: Vec<u64>| row@);
    let ghost used0 = used_predicted@;
    if reference_index >= overlaps.len() {
        return current_total;
    }
    proof {
        lemma_best_choice_mono(ov, reference_index as int, used0, 0, used0.len() as int);
        lemma_best_choice_nonneg(ov, reference_index as int, used0, 0);
    }
    let mut best = best_overlap_assignment(
        overlaps,
        reference_index + 1,
        current_total,
        used_predicted,
    );
    let n = used_predicted.len();
    for p in 0..n
        invariant
            n == used0.len(),
            reference_index < overlaps@.len(),
            reference_index < usize::MAX,
            ov == overlaps@.map_values(|row: Vec<u64>| row@),
            used_predicted@ == used0,
            forall|k: int| 0 <= k < overlaps@.len() ==> (#[trigger] overlaps@[k])@.len() >= n,
            current_total + best_from(ov, reference_index as int, used0) <= u64::MAX,
            best == current_total + best_choice(ov, reference_index as int, used0, p as int),
    {
        if !used_predicted[p] {
            proof {
                lemma_best_choice_mono(ov, reference_index as int, used0, p + 1, n as int);
                lemma_best_from_nonneg(ov, reference_index + 1, used0.update(p as int, true));
                assert(ov[reference_index as int][p as int] == overlaps@[reference_index as int]@[p as int]);
            }
            used_predicted.set(p, true);
            let with = best_overlap_assignment(
                overlaps,
                reference_index + 1,
                current_total + overlaps[reference_index][p],
                used_predicted,
            );
            used_predicted.set(p, false);
            assert(used_predicted@ =~= used0);
            if with > best {
                best = with;
            }
        }
    }
    best
}

/// `a < b` for strings: the first differing character decides, by code point, and a proper
/// prefix comes first (the order of `String`, since UTF-8 keeps code point order).
pub open spec fn chars_less(a: Seq<char>, b: Seq<char>) -> bool
    decreases a.len(),
{
    if a.len() == 0 {
        b.len() > 0
    } else if b.len() == 0 {
        false
    } else if a[0] != b[0] {
        a[0] < b[0]
    } else {
        chars_less(a.drop_first(), b.drop_first())
    }
}

pub proof fn lemma_chars_less_total(a: Seq<char>, b: Seq<char>)
    ensures
        a == b || chars_less(a, b) || chars_less(b, a),
        !(chars_less(a, b) && chars_less(b, a)),
        !chars_less(a, a),
    decreases a.len(),
{
    if a.len() == 0 && b.len() == 0 {
        assert(a =~= b);
    }
    if a.len() > 0 && b.len() > 0 {
        lemma_chars_less_total(a.drop_first(), b.drop_first());
        if a[0] == b[0] && a.drop_first() == b.drop_first() {
            assert(a =~= seq![a[0]] + a.drop_first());
            assert(b =~= seq![b[0]] + b.drop_first());
        }
    }
    if a.len() > 0 {
        lemma_chars_less_total(a.drop_first(), a.drop_first());
    }
}

pub proof fn lemma_chars_less_trans(a: Seq<char>, b: Seq<char>, c: Seq<char>)
    requires
        chars_less(a, b),
        chars_less(b, c),
    ensures
        chars_less(a, c),
    decreases a.len(),
{
    if a.len() > 0 && b.len() > 0 && c.len() > 0 {
        if a[0] == b[0] && b[0] == c[0] {
            lemma_chars_less_trans(a.drop_first(), b.drop_first(), c.drop_first());
        }
    }
}

pub fn chars_less_exec(a: &Vec<char>, b: &Vec<char>) -> (r: bool)
    ensures
        r == chars_less(a@, b@),
{
    let mut i: usize = 0;
    assert(a@.skip(0) =~= a@);
    assert(b@.skip(0) =~= b@);
    while i < a.len() && i < b.len()
        invariant
            i <= a@.len() && i <= b@.len(),
            forall|k: int| 0 <= k < i ==> a@[k] == b@[k],
            chars_less(a@, b@) == chars_less(a@.skip(i as int), b@.skip(i as int)),
        decreases a@.len() - i,
    {
        if a[i] != b[i] {
            return a[i] < b[i];
        }
        assert(a@.skip(i as int).drop_first() =~= a@.skip(i + 1));
        assert(b@.skip(i as int).drop_first() =~= b@.skip(i + 1));
        i = i + 1;
    }
    i == a.len() && i < b.len()
}

/// Strictly ascending: each string before every later one.
pub open spec fn strictly_sorted(v: Seq<Seq<char>>) -> bool {
    forall|i: int, j: int| 0 <= i < j < v.len() ==> chars_less(#[trigger] v[i], #[trigger] v[j])
}

/// The reference speakers, each once, in ascending order.
pub fn reference_speakers(turns: &[ReferenceTurn]) -> (r: Vec<Vec<char>>)
    ensures
        strictly_sorted(views(r@)),
        forall|x: Seq<char>| views(r@).contains(x) <==> exists|k: int|
            0 <= k < turns@.len() && (#[trigger] turns@[k]).speaker@ == x,
{
    let mut out: Vec<Vec<char>> = Vec::new();
    for i in 0..turns.len()
        invariant
            strictly_sorted(views(out@)),
            forall|x: Seq<char>| views(out@).contains(x) <==> exists|k: int|
                0 <= k < i && (#[trigger] turns@[k]).speaker@ == x,
    {
        let x = to_chars(turns[i].speaker.as_str());
        let ghost vs = views(out@);
        let mut p: usize = 0;
        while p < out.len() && chars_less_exec(&out[p], &x)
            invariant
                vs == views(out@),
                p <= out@.len(),
                forall|k: int| 0 <= k < p ==> chars_less(vs[k], x@),
            decreases out@.len() - p,
        {
            p = p + 1;
        }
        proof {
            if p < out@.len() {
                lemma_chars_less_total(vs[p as int], x@);
            }
        }
        if p < out.len() && crate::text::chars_eq(&out[p], &x) {
            assert(vs[p as int] == x@);
            assert forall|y: Seq<char>| vs.contains(y) <==> exists|k: int|
                0 <= k < i + 1 && (#[trigger] turns@[k]).speaker@ == y by {
                if y == x@ {
                    assert(vs[p as int] == y);
                    assert(turns@[i as int].speaker@ == y);
                }
                if vs.contains(y) && y != x@ {
                    let k = choose|k: int| 0 <= k < i && (#[trigger] turns@[k]).speaker@ == y;
                    assert(0 <= k < i + 1);
                }
            }
        } else {
            proof {
                if p < out@.len() {
                    assert(chars_less(x@, vs[p as int]));
                }
                assert forall|j: int| p <= j < vs.len() implies chars_less(x@, #[trigger] vs[j]) by {
                    if j > p {
                        lemma_chars_less_trans(x@, vs[p as int], vs[j]);
                    }
                }
            }
            out.insert(p, x);
            proof {
                let nv = views(out@);
                assert(nv =~= vs.insert(p as int, x@));
                assert forall|a: int, b: int| 0 <= a < b < nv.len() implies chars_less(
                    #[trigger] nv[a],
                    #[trigger] nv[b],
                ) by {
                    if b < p {
                    } else if a < p && b == p {
                    } else if a < p && b > p {
                        lemma_chars_less_trans(nv[a], x@, nv[b]);
                    } else if a == p {
                    } else {
                        assert(nv[a] == vs[a - 1] && nv[b] == vs[b - 1]);
                    }
                }
                assert forall|y: Seq<char>| nv.contains(y) <==> exists|k: int|
                    0 <= k < i + 1 && (#[trigger] turns@[k]).speaker@ == y by {
                    if y == x@ {
                        assert(nv[p as int] == y);
                        assert(turns@[i as int].speaker@ == y);
                    }
                    if nv.contains(y) && y != x@ {
                        let j = choose|j: int| 0 <= j < nv.len() && nv[j] == y;
                        if j < p {
                            assert(vs[j] == y);
                        } else {
                            assert(vs[j - 1] == y);
                        }
                        assert(vs.contains(y));
                        let k = choose|k: int| 0 <= k < i && (#[trigger] turns@[k]).speaker@ == y;
                        assert(0 <= k < i + 1);
                    }
                    if (exists|k: int| 0 <= k < i + 1 && (#[trigger] turns@[k]).speaker@ == y) && y
                        != x@ {
                        let k = choose|k: int| 0 <= k < i + 1 && (#[trigger] turns@[k]).speaker@ == y;
                        assert(k < i);
                        assert(vs.contains(y));
                        let j = choose|j: int| 0 <= j < vs.len() && vs[j] == y;
                        if j < p {
                            assert(nv[j] == y);
                        } else {
                            assert(nv[j + 1] == y);
                        }
                    }
                }
            }
        }
    }
    out
}

/// Equal neighbours collapsed into one.
pub open spec fn dedup_runs(ss: Seq<SpeakerLabel>) -> Seq<SpeakerLabel>
    decreases ss.len(),
{
    if ss.len() == 0 {
        Seq::empty()
    } else if ss.len() >= 2 && ss[ss.len() - 2] == ss.last() {
        dedup_runs(ss.drop_last())
    } else {
        dedup_runs(ss.drop_last()).push(ss.last())
    }
}

/// The predicted speakers sorted by index, equal neighbours once.
pub open spec fn predicted_speaker_list(segs: Seq<CanonicalSegment>) -> Seq<SpeakerLabel> {
    dedup_runs(sorted_by_index(speakers_of(seg_views(segs))))
}

pub fn predicted_speakers(segments: &[CanonicalSegment]) -> (r: Vec<SpeakerLabel>)
    ensures
        r@ == predicted_speaker_list(segments@),
{
    let ghost ss = speakers_of(seg_views(segments@));
    let mut sorted: Vec<SpeakerLabel> = Vec::new();
    collect_with_index(segments, 0, &mut sorted);
    collect_with_index(segments, 1, &mut sorted);
    collect_with_index(segments, 2, &mut sorted);
    collect_with_index(segments, 3, &mut sorted);
    collect_with_index(segments, 4, &mut sorted);
    collect_with_index(segments, 5, &mut sorted);
    assert(sorted@ =~= sorted_by_index(ss));
    let mut out: Vec<SpeakerLabel> = Vec::new();
    for i in 0..sorted.len()
        invariant
            out@ == dedup_runs(sorted@.take(i as int)),
    {
        assert(sorted@.take(i + 1).drop_last() =~= sorted@.take(i as int));
        if !(i >= 1 && sorted[i - 1] == sorted[i]) {
            out.push(sorted[i]);
        }
    }
    assert(sorted@.take(sorted.len() as int) =~= sorted@);
    out
}

/// The overlap of a reference turn with the first `n` segments of a predicted speaker.
pub open spec fn turn_overlap(t: ReferenceTurn, segs: Seq<CanonicalSegment>, p: SpeakerLabel, n: int) -> int
    decreases n,
{
    if n <= 0 {
        0
    } else {
        turn_overlap(t, segs, p, n - 1) + if segs[n - 1].speaker == p {
            overlap(t.start_ms, t.end_ms, segs[n - 1].start_ms, segs[n - 1].end_ms) as int
        } else {
            0
        }
    }
}

/// The overlap of the first `n` turns of a reference speaker with a predicted speaker.
pub open spec fn pair_overlap(
    turns: Seq<ReferenceTurn>,
    segs: Seq<CanonicalSegment>,
    r: Seq<char>,
    p: SpeakerLabel,
    n: int,
) -> int
    decreases n,
{
    if n <= 0 {
        0
    } else {
        pair_overlap(turns, segs, r, p, n - 1) + if turns[n - 1].speaker@ == r {
            turn_overlap(turns[n - 1], segs, p, segs.len() as int)
        } else {
            0
        }
    }
}

pub proof fn lemma_turn_overlap_mono(t: ReferenceTurn, segs: Seq<CanonicalSegment>, p: SpeakerLabel, n: int)
    requires
        0 <= n <= segs.len(),
    ensures
        0 <= turn_overlap(t, segs, p, n) <= turn_overlap(t, segs, p, segs.len() as int),
    decreases segs.len() - n,
{
    if n < segs.len() {
        lemma_turn_overlap_mono(t, segs, p, n + 1);
    }
    lemma_turn_overlap_nonneg(t, segs, p, n);
}

pub proof fn lemma_turn_overlap_nonneg(t: ReferenceTurn, segs: Seq<CanonicalSegment>, p: SpeakerLabel, n: int)
    ensures
        turn_overlap(t, segs, p, n) >= 0,
    decreases n,
{
    if n > 0 {
        lemma_turn_overlap_nonneg(t, segs, p, n - 1);
    }
}

pub proof fn lemma_pair_overlap_mono(
    turns: Seq<ReferenceTurn>,
    segs: Seq<CanonicalSegment>,
    r: Seq<char>,
    p: SpeakerLabel,
    n: int,
)
    requires
        0 <= n <= turns.len(),
    ensures
        0 <= pair_overlap(turns, segs, r, p, n) <= pair_overlap(turns, segs, r, p, turns.len() as int),
    decreases turns.len() - n,
{
    if n < turns.len() {
        lemma_pair_overlap_mono(turns, segs, r, p, n + 1);
        lemma_turn_overlap_nonneg(turns[n], segs, p, segs.len() as int);
    }
    lemma_pair_overlap_nonneg(turns, segs, r, p, n);
}

pub proof fn lemma_pair_overlap_nonneg(
    turns: Seq<ReferenceTurn>,
    segs: Seq<CanonicalSegment>,
    r: Seq<char>,
    p: SpeakerLabel,
    n: int,
)
    ensures
        pair_overlap(turns, segs, r, p, n) >= 0,
    decreases n,
{
    if n > 0 {
        lemma_pair_overlap_nonneg(turns, segs, r, p, n - 1);
        lemma_turn_overlap_nonneg(turns[n - 1], segs, p, segs.len() as int);
    }
}

/// The overlap table: how long each reference speaker and each predicted speaker talk at
/// once.
pub open spec fn overlap_table(
    turns: Seq<ReferenceTurn>,
    segs: Seq<CanonicalSegment>,
    refs: Seq<Seq<char>>,
    preds: Seq<SpeakerLabel>,
) -> Seq<Seq<u64>> {
    Seq::new(
        refs.len(),
        |i: int|
            Seq::new(
                preds.len(),
                |j: int| pair_overlap(turns, segs, refs[i], preds[j], turns.len() as int) as u64,
            ),
    )
}

fn pair_overlap_exec(
    turns: &[ReferenceTurn],
    segments: &[CanonicalSegment],
    r: &Vec<char>,
    p: SpeakerLabel,
) -> (o: u64)
    requires
        pair_overlap(turns@, segments@, r@, p, turns@.len() as int) <= u64::MAX,
    ensures
        o == pair_overlap(turns@, segments@, r@, p, turns@.len() as int),
{
    let mut total: u64 = 0;
    for i in 0..turns.len()
        invariant
            pair_overlap(turns@, segments@, r@, p, turns@.len() as int) <= u64::MAX,
            total == pair_overlap(turns@, segments@, r@, p, i as int),
    {
        proof {
            lemma_pair_overlap_mono(turns@, segments@, r@, p, i + 1);
        }
        let t = &turns[i];
        if crate::text::chars_eq(&to_chars(t.speaker.as_str()), r) {
            let mut sum: u64 = 0;
            for k in 0..segments.len()
                invariant
                    i < turns@.len(),
                    t == &turns@[i as int],
                    pair_overlap(turns@, segments@, r@, p, turns@.len() as int) <= u64::MAX,
                    total == pair_overlap(turns@, segments@, r@, p, i as int),
                    total + turn_overlap(turns@[i as int], segments@, p, segments@.len() as int)
                        <= u64::MAX,
                    sum == turn_overlap(turns@[i as int], segments@, p, k as int),
            {
                proof {
                    lemma_turn_overlap_mono(turns@[i as int], segments@, p, k + 1);
                }
                if segments[k].speaker == p {
                    sum = sum + overlap_ms(t.start_ms, t.end_ms, segments[k].start_ms, segments[k].end_ms);
                }
            }
            total = total + sum;
        }
    }
    total
}

/// The total length of the reference turns (at least 1 ms).
pub open spec fn reference_length(turns: Seq<ReferenceTurn>, n: int) -> int
    decreases n,
{
    if n <= 0 {
        0
    } else {
        reference_length(turns, n - 1) + crate::ambient::sat_sub(turns[n - 1].end_ms, turns[n - 1].start_ms)
    }
}

pub proof fn lemma_reference_length_mono(turns: Seq<ReferenceTurn>, n: int)
    requires
        0 <= n <= turns.len(),
    ensures
        0 <= reference_length(turns, n) <= reference_length(turns, turns.len() as int),
    decreases turns.len() - n,
{
    if n < turns.len() {
        lemma_reference_length_mono(turns, n + 1);
    }
    lemma_reference_length_nonneg(turns, n);
}

pub proof fn lemma_reference_length_nonneg(turns: Seq<ReferenceTurn>, n: int)
    ensures
        reference_length(turns, n) >= 0,
    decreases n,
{
    if n > 0 {
        lemma_reference_length_nonneg(turns, n - 1);
    }
}

/// The speaker time counts of a segmentation: the most reference time that a pairing of
/// reference speakers (in ascending order) with predicted speakers (sorted by index, equal
/// neighbours once) can cover, and the total reference time (at least 1 ms); the accuracy is
/// their ratio, and zero (none here) without turns or segments.
pub fn speaker_time_counts(reference_turns: &[ReferenceTurn], segments: &[CanonicalSegment]) -> (r:
    Option<(u64, u64)>)
    requires
        forall|refs: Seq<Seq<char>>|
            strictly_sorted(refs) && (forall|x: Seq<char>| refs.contains(x) <==> exists|k: int|
                0 <= k < reference_turns@.len() && (#[trigger] reference_turns@[k]).speaker@ == x)
                ==> {
                &&& forall|i: int, j: int|
                    0 <= i < refs.len() && 0 <= j < predicted_speaker_list(segments@).len()
                        ==> pair_overlap(
                        reference_turns@,
                        segments@,
                        #[trigger] refs[i],
                        #[trigger] predicted_speaker_list(segments@)[j],
                        reference_turns@.len() as int,
                    ) <= u64::MAX
                &&& best_from(
                    overlap_table(reference_turns@, segments@, refs, predicted_speaker_list(segments@)),
                    0,
                    Seq::new(predicted_speaker_list(segments@).len(), |j: int| false),
                ) <= u64::MAX
            },
        reference_length(reference_turns@, reference_turns@.len() as int) <= u64::MAX,
    ensures
        (reference_turns@.len() == 0 || segments@.len() == 0) <==> r is None,
        r matches Some((best, total)) ==> {
            &&& total == if reference_length(reference_turns@, reference_turns@.len() as int) >= 1 {
                reference_length(reference_turns@, reference_turns@.len() as int)
            } else {
                1
            }
            &&& exists|refs: Seq<Seq<char>>|
                strictly_sorted(refs) && (forall|x: Seq<char>| refs.contains(x) <==> exists|k: int|
                    0 <= k < reference_turns@.len() && (#[trigger] reference_turns@[k]).speaker@ == x)
                    && best == best_from(
                    overlap_table(
                        reference_turns@,
                        segments@,
                        refs,
                        predicted_speaker_list(segments@),
                    ),
                    0,
                    Seq::new(predicted_speaker_list(segments@).len(), |j: int| false),
                )
        },
{
    if reference_turns.len() == 0 || segments.len() == 0 {
        return None;
    }
    let refs = reference_speakers(reference_turns);
    let preds = predicted_speakers(segments);
    let ghost rv = views(refs@);
    let ghost pv = preds@;
    let mut table: Vec<Vec<u64>> = Vec::new();
    for i in 0..refs.len()
        invariant
            rv == views(refs@),
            pv == preds@,
            pv == predicted_speaker_list(segments@),
            forall|i: int, j: int|
                0 <= i < rv.len() && 0 <= j < pv.len() ==> pair_overlap(
                    reference_turns@,
                    segments@,
                    #[trigger] rv[i],
                    #[trigger] pv[j],
                    reference_turns@.len() as int,
                ) <= u64::MAX,
            table@.len() == i,
            forall|a: int|
                0 <= a < i ==> (#[trigger] table@[a])@ == overlap_table(reference_turns@, segments@, rv, pv)[a],
    {
        let mut row: Vec<u64> = Vec::new();
        for j in 0..preds.len()
            invariant
                rv == views(refs@),
                pv == preds@,
                i < rv.len(),
                forall|i: int, j: int|
                    0 <= i < rv.len() && 0 <= j < pv.len() ==> pair_overlap(
                        reference_turns@,
                        segments@,
                        #[trigger] rv[i],
                        #[trigger] pv[j],
                        reference_turns@.len() as int,
                    ) <= u64::MAX,
                row@.len() == j,
                forall|b: int|
                    0 <= b < j ==> #[trigger] row@[b] == pair_overlap(
                        reference_turns@,
                        segments@,
                        rv[i as int],
                        pv[b],
                        reference_turns@.len() as int,
                    ),
        {
            assert(refs@[i as int]@ == rv[i as int]);
            let o = pair_overlap_exec(reference_turns, segments, &refs[i], preds[j]);
            row.push(o);
        }
        assert(row@ =~= overlap_table(reference_turns@, segments@, rv, pv)[i as int]);
        table.push(row);
    }
    let ghost ov = table@.map_values(|row: Vec<u64>| row@);
    assert(ov =~= overlap_table(reference_turns@, segments@, rv, pv));
    let mut used: Vec<bool> = Vec::new();
    for j in 0..preds.len()
        invariant
            used@.len() == j,
            forall|b: int| 0 <= b < j ==> !#[trigger] used@[b],
    {
        used.push(false);
    }
    assert(used@ =~= Seq::new(pv.len(), |j: int| false));
    let best = best_overlap_assignment(&table, 0, 0, &mut used);
    let mut total: u64 = 0;
    for i in 0..reference_turns.len()
        invariant
            reference_length(reference_turns@, reference_turns@.len() as int) <= u64::MAX,
            total == reference_length(reference_turns@, i as int),
    {
        proof {
            lemma_reference_length_mono(reference_turns@, i + 1);
        }
        let t = &reference_turns[i];
        let d = if t.end_ms >= t.start_ms {
            t.end_ms - t.start_ms
        } else {
            0
        };
        total = total + d;
    }
    Some((best, if total >= 1 {
        total
    } else {
        1
    }))
}


/// The distinct reference speakers.
pub open spec fn reference_speaker_set(turns: Seq<ReferenceTurn>) -> Set<Seq<char>> {
    Set::new(|x: Seq<char>| exists|k: int| 0 <= k < turns.len() && (#[trigger] turns[k]).speaker@ == x)
}

/// How many distinct speakers the reference names.
pub fn unique_reference_speaker_count(turns: &[ReferenceTurn]) -> (r: usize)
    ensures
        r == reference_speaker_set(turns@).len(),
{
    let speakers = reference_speakers(turns);
    proof {
        let v = views(speakers@);
        assert forall|i: int, j: int| 0 <= i < v.len() && 0 <= j < v.len() && i != j implies v[i]
            != v[j] by {
            if i < j {
                lemma_chars_less_total(v[i], v[j]);
            } else {
                lemma_chars_less_total(v[j], v[i]);
            }
        }
        assert(v.no_duplicates());
        v.unique_seq_to_set();
        assert(v.to_set() =~= reference_speaker_set(turns@));
    }
    speakers.len()
}

/// The segment texts.
pub open spec fn segment_texts(segs: Seq<CanonicalSegment>) -> Seq<Seq<char>> {
    segs.map_values(|s: CanonicalSegment| s.text@)
}

/// The trimmed segment texts that are not empty, joined by single spaces.
pub fn plain_transcript(segments: &[CanonicalSegment]) -> (r: String)
    ensures
        r@ == crate::text::join(crate::ambient::filled_lines(segment_texts(segments@)), seq![' ']),
{
    let ghost tv = segment_texts(segments@);
    let mut parts: Vec<Vec<char>> = Vec::new();
    for i in 0..segments.len()
        invariant
            tv == segment_texts(segments@),
            views(parts@) == crate::ambient::filled_lines(tv.take(i as int)),
    {
        assert(tv.take(i + 1).drop_last() =~= tv.take(i as int));
        let tc = to_chars(segments[i].text.as_str());
        let t = trimmed(&tc, CharClass::Whitespace);
        if t.len() > 0 {
            proof {
                crate::text::lemma_views_push(parts@, t);
            }
            parts.push(t);
        }
    }
    assert(tv.take(segments.len() as int) =~= tv);
    let sep = vec![' '];
    assert(sep@ =~= seq![' ']);
    let j = crate::text::join_vecs(&parts, &sep);
    assert(parts@.map_values(|p: Vec<char>| p@) =~= views(parts@));
    crate::text::from_chars(&j)
}

pub open spec fn tier_name(t: AppleChipTier) -> Seq<char> {
    match t {
        AppleChipTier::Base => "Base"@,
        AppleChipTier::Pro => "Pro"@,
        AppleChipTier::Max => "Max"@,
        AppleChipTier::Ultra => "Ultra"@,
    }
}

fn tier_name_exec(t: AppleChipTier) -> (r: &'static str)
    ensures
        r@ == tier_name(t),
{
    match t {
        AppleChipTier::Base => "Base",
        AppleChipTier::Pro => "Pro",
        AppleChipTier::Max => "Max",
        AppleChipTier::Ultra => "Ultra",
    }
}

/// How the report names a machine's chip.
pub open spec fn chip_text(family: MachineFamily) -> Seq<char> {
    match family {
        MachineFamily::AppleSilicon(chip) => match chip.generation {
            Some(g) => "Apple M"@ + crate::text::decimal(g as nat) + " "@ + tier_name(chip.tier),
            None => "Apple "@ + tier_name(chip.tier),
        },
        MachineFamily::Intel => "Intel"@,
        MachineFamily::OtherArm => "Other ARM"@,
        MachineFamily::Other => "Other"@,
    }
}

/// The chip label of the evaluation report: `Apple M<generation> <tier>`, `Apple <tier>`,
/// `Intel`, `Other ARM` or `Other`.
pub fn chip_label(machine: &MachineProfile) -> (r: String)
    ensures
        r@ == chip_text(machine.family),
{
    match machine.family {
        MachineFamily::AppleSilicon(chip) => match chip.generation {
            Some(g) => {
                let gen = crate::text::from_chars(&crate::text::decimal_exec(g as u64));
                let head = concat3("Apple M", gen.as_str(), " ");
                proof {
                    reveal_strlit("");
                }
                concat3(head.as_str(), tier_name_exec(chip.tier), "")
            },
            None => {
                proof {
                    reveal_strlit("");
                }
                concat3("Apple ", tier_name_exec(chip.tier), "")
            },
        },
        MachineFamily::Intel => "Intel".to_string(),
        MachineFamily::OtherArm => "Other ARM".to_string(),
        MachineFamily::Other => "Other".to_string(),
    }
}

} // verus!
