//! Cleaning and stitching of overlapping transcript text.
use vstd::prelude::*;
use crate::text::{
    char_is_whitespace, clone_chars, collapse, collapse_spaces, lemma_views_push, lower, split_words,
    to_lower, trim, trim_cls, trimmed, views, words, CharClass, is_ws, chars_eq, join, join_vecs, space,
    contains, contains_exec, utf8_len, ends_with, ends_with_exec,
};

verus! {

pub open spec fn is_sentence_punct(c: char) -> bool {
    c == '.' || c == '?' || c == '!' || c == ';' || c == ':'
}

pub open spec fn joins_without_space(c: char) -> bool {
    c == '.' || c == ',' || c == '?' || c == '!'
}

/// What `repair_transcript_spacing` writes for the character at `i`: the character, and a
/// space after sentence punctuation that runs straight into the next word.
pub open spec fn repair_piece(s: Seq<char>, i: int) -> Seq<char> {
    if is_sentence_punct(s[i]) && i + 1 < s.len() && !is_ws(s[i + 1]) && !joins_without_space(
        s[i + 1],
    ) {
        seq![s[i], ' ']
    } else {
        seq![s[i]]
    }
}

pub open spec fn repair_upto(s: Seq<char>, n: int) -> Seq<char>
    decreases n,
{
    if n <= 0 {
        Seq::empty()
    } else {
        repair_upto(s, n - 1) + repair_piece(s, n - 1)
    }
}

pub open spec fn repair_spacing(s: Seq<char>) -> Seq<char> {
    repair_upto(s, s.len() as int)
}

pub fn repair_transcript_spacing(s: &Vec<char>) -> (r: Vec<char>)
    ensures
        r@ == repair_spacing(s@),
{
    let mut out: Vec<char> = Vec::new();
    for i in 0..s.len()
        invariant
            out@ == repair_upto(s@, i as int),
    {
        let ch = s[i];
        out.push(ch);
        let c1 = ch == '.' || ch == '?' || ch == '!' || ch == ';' || ch == ':';
        if c1 && i + 1 < s.len() {
            let next = s[i + 1];
            if !char_is_whitespace(next) && !(next == '.' || next == ',' || next == '?' || next
                == '!') {
                out.push(' ');
            }
        }
        assert(out@ =~= repair_upto(s@, i + 1));
    }
    out
}

pub open spec fn is_fragment_end(c: char) -> bool {
    c == '.' || c == '?' || c == '!' || c == ';' || c == '\n'
}

pub open spec fn fragment_of(cur: Seq<char>) -> Seq<char> {
    collapse(trim(cur))
}

pub open spec fn push_nonempty(done: Seq<Seq<char>>, f: Seq<char>) -> Seq<Seq<char>> {
    if f.len() > 0 {
        done.push(f)
    } else {
        done
    }
}

/// Scanning state of `split_transcript_fragments`: finished fragments and the current one.
pub open spec fn fragment_state(s: Seq<char>) -> (Seq<Seq<char>>, Seq<char>)
    decreases s.len(),
{
    if s.len() == 0 {
        (Seq::empty(), Seq::empty())
    } else {
        let (done, cur) = fragment_state(s.drop_last());
        let cur2 = cur.push(s.last());
        if is_fragment_end(s.last()) {
            (push_nonempty(done, fragment_of(cur2)), Seq::empty())
        } else {
            (done, cur2)
        }
    }
}

/// The text cut after each `.`, `?`, `!`, `;` and newline, each piece trimmed and with its
/// whitespace collapsed, empty pieces dropped; the whole text as one piece when no piece is
/// left.
pub open spec fn fragments(s: Seq<char>) -> Seq<Seq<char>> {
    let (done, cur) = fragment_state(s);
    let all = push_nonempty(done, fragment_of(cur));
    if all.len() == 0 {
        push_nonempty(Seq::empty(), fragment_of(s))
    } else {
        all
    }
}

pub fn fragment_exec(cur: &Vec<char>) -> (r: Vec<char>)
    ensures
        r@ == fragment_of(cur@),
{
    let t = trimmed(cur, CharClass::Whitespace);
    collapse_spaces(&t)
}

pub fn split_transcript_fragments(s: &Vec<char>) -> (r: Vec<Vec<char>>)
    ensures
        views(r@) == fragments(s@),
{
    let mut done: Vec<Vec<char>> = Vec::new();
    let mut cur: Vec<char> = Vec::new();
    for i in 0..s.len()
        invariant
            views(done@) == fragment_state(s@.take(i as int)).0,
            cur@ == fragment_state(s@.take(i as int)).1,
    {
        let ch = s[i];
        assert(s@.take(i + 1).drop_last() =~= s@.take(i as int));
        cur.push(ch);
        if ch == '.' || ch == '?' || ch == '!' || ch == ';' || ch == '\n' {
            let f = fragment_exec(&cur);
            if f.len() > 0 {
                proof {
                    lemma_views_push(done@, f);
                }
                done.push(f);
            }
            cur = Vec::new();
        }
    }
    assert(s@.take(s.len() as int) =~= s@);
    let t = fragment_exec(&cur);
    if t.len() > 0 {
        proof {
            lemma_views_push(done@, t);
        }
        done.push(t);
    }
    if done.len() == 0 {
        let single = fragment_exec(s);
        if single.len() > 0 {
            proof {
                lemma_views_push(done@, single);
                assert(done@ =~= Seq::<Vec<char>>::empty());
            }
            done.push(single);
        }
        proof {
            assert(views(Seq::<Vec<char>>::empty()) =~= Seq::<Seq<char>>::empty());
        }
    }
    done
}

/// A transcript token: the word without the non-alphanumeric characters (apostrophes kept)
/// at its ends, in ASCII lower case.
pub open spec fn norm_token(w: Seq<char>) -> Seq<char> {
    lower(trim_cls(w, CharClass::TokenEdge))
}

pub fn norm_token_exec(w: &Vec<char>) -> (r: Vec<char>)
    ensures
        r@ == norm_token(w@),
{
    let t = trimmed(w, CharClass::TokenEdge);
    to_lower(&t)
}

/// The normalized token of each word.
pub open spec fn norm_words(s: Seq<char>) -> Seq<Seq<char>> {
    words(s).map_values(|w: Seq<char>| norm_token(w))
}

pub open spec fn nonempty_only(ts: Seq<Seq<char>>) -> Seq<Seq<char>>
    decreases ts.len(),
{
    if ts.len() == 0 {
        Seq::empty()
    } else {
        push_nonempty(nonempty_only(ts.drop_last()), ts.last())
    }
}

/// `transcript_tokens`: the non-empty normalized tokens of the words.
pub open spec fn tokens(s: Seq<char>) -> Seq<Seq<char>> {
    nonempty_only(norm_words(s))
}

pub fn normalize_words(words_v: &Vec<Vec<char>>) -> (r: Vec<Vec<char>>)
    ensures
        views(r@) == views(words_v@).map_values(|w: Seq<char>| norm_token(w)),
{
    let mut out: Vec<Vec<char>> = Vec::new();
    for i in 0..words_v.len()
        invariant
            views(out@) == views(words_v@.take(i as int)).map_values(|w: Seq<char>| norm_token(w)),
    {
        let t = norm_token_exec(&words_v[i]);
        proof {
            lemma_views_push(out@, t);
            assert(views(words_v@.take(i + 1)).map_values(|w: Seq<char>| norm_token(w)) =~= views(
                words_v@.take(i as int),
            ).map_values(|w: Seq<char>| norm_token(w)).push(t@));
        }
        out.push(t);
    }
    assert(words_v@.take(words_v.len() as int) =~= words_v@);
    out
}

pub fn transcript_tokens(s: &Vec<char>) -> (r: Vec<Vec<char>>)
    ensures
        views(r@) == tokens(s@),
{
    let ws = split_words(s);
    assert(views(ws@) =~= words(s@));
    let norm = normalize_words(&ws);
    let mut out: Vec<Vec<char>> = Vec::new();
    for i in 0..norm.len()
        invariant
            views(out@) == nonempty_only(views(norm@).take(i as int)),
    {
        assert(views(norm@).take(i + 1).drop_last() =~= views(norm@).take(i as int));
        if norm[i].len() > 0 {
            let t = clone_chars(&norm[i]);
            proof {
                lemma_views_push(out@, t);
            }
            out.push(t);
        }
    }
    assert(views(norm@).take(norm.len() as int) =~= views(norm@));
    out
}


/// `norm[i..i + size]` is a run of non-empty tokens that the next `size` tokens repeat.
pub open spec fn ngram_ok(norm: Seq<Seq<char>>, i: int, size: int) -> bool {
    &&& 0 <= i
    &&& 0 <= size
    &&& i + 2 * size <= norm.len()
    &&& forall|k: int| i <= k < i + size ==> (#[trigger] norm[k]).len() > 0
    &&& norm.subrange(i, i + size) == norm.subrange(i + size, i + 2 * size)
}

/// The longest repeated run of at least three tokens that starts at `i` and is at most
/// `size` long, or 0.
pub open spec fn pick_ngram(norm: Seq<Seq<char>>, i: int, size: int) -> int
    decreases size,
{
    if size < 3 {
        0
    } else if ngram_ok(norm, i, size) {
        size
    } else {
        pick_ngram(norm, i, size - 1)
    }
}

/// Where the repetitions of `norm[start..start + size]` that follow position `at` end.
pub open spec fn skip_repeats(norm: Seq<Seq<char>>, at: int, size: int, start: int) -> int
    decreases norm.len() - at,
{
    if size > 0 && 0 <= at && at + size <= norm.len() && norm.subrange(at, at + size)
        == norm.subrange(start, start + size) {
        skip_repeats(norm, at + size, size, start)
    } else {
        at
    }
}

/// The indices of the words that `compact_repeated_tokens` keeps, reading from `index` on,
/// where `last` is the last kept normalized token (if `has_last`).
pub open spec fn compact_from(
    norm: Seq<Seq<char>>,
    m: int,
    index: int,
    last: Seq<char>,
    has_last: bool,
) -> Seq<int>
    decreases norm.len() - index,
{
    if index < 0 || index >= norm.len() {
        Seq::empty()
    } else {
        let size = pick_ngram(norm, index, m);
        if size >= 3 {
            let next = skip_repeats(norm, index + 2 * size, size, index);
            if next <= index || next > norm.len() {
                Seq::empty()
            } else {
                Seq::new(size as nat, |k: int| index + k) + compact_from(
                    norm,
                    m,
                    next,
                    norm[index + size - 1],
                    true,
                )
            }
        } else if has_last && last.len() > 0 && last == norm[index] {
            compact_from(norm, m, index + 1, last, has_last)
        } else {
            seq![index] + compact_from(norm, m, index + 1, norm[index], true)
        }
    }
}

pub open spec fn min_int(a: int, b: int) -> int {
    if a < b {
        a
    } else {
        b
    }
}

/// `compact_repeated_tokens`: a phrase of 3 to 12 tokens that is said twice or more in a
/// row is kept once, a token equal to the last kept one is dropped, and the kept words are
/// joined by single spaces.
pub open spec fn compact_tokens(s: Seq<char>) -> Seq<char> {
    let raw = words(s);
    if raw.len() == 0 {
        Seq::empty()
    } else {
        let m = min_int(12, raw.len() as int / 2);
        let idx = compact_from(norm_words(s), m, 0, Seq::empty(), false);
        collapse(join(idx.map_values(|k: int| raw[k]), space()))
    }
}

pub proof fn lemma_pick_ngram_ok(norm: Seq<Seq<char>>, i: int, size: int)
    ensures
        pick_ngram(norm, i, size) >= 3 ==> ngram_ok(norm, i, pick_ngram(norm, i, size)),
    decreases size,
{
    if size >= 3 && !ngram_ok(norm, i, size) {
        lemma_pick_ngram_ok(norm, i, size - 1);
    }
}

pub fn ranges_equal(norm: &Vec<Vec<char>>, a: usize, b: usize, size: usize) -> (r: bool)
    requires
        a + size <= norm@.len(),
        b + size <= norm@.len(),
    ensures
        r == (views(norm@).subrange(a as int, a + size) == views(norm@).subrange(
            b as int,
            b + size,
        )),
{
    let ghost v = views(norm@);
    let _n = norm.len();
    let mut k: usize = 0;
    while k < size
        invariant
            v == views(norm@),
            a + size <= norm@.len(),
            b + size <= norm@.len(),
            norm@.len() <= usize::MAX,
            k <= size,
            forall|j: int| a <= j < a + k ==> #[trigger] v[j] == v[j - a + b],
        decreases size - k,
    {
        if !chars_eq(&norm[a + k], &norm[b + k]) {
            assert(v.subrange(a as int, a + size)[k as int] != v.subrange(b as int, b + size)[k as int]);
            return false;
        }
        k = k + 1;
    }
    assert(v.subrange(a as int, a + size) =~= v.subrange(b as int, b + size));
    true
}

pub fn ngram_ok_exec(norm: &Vec<Vec<char>>, i: usize, size: usize) -> (r: bool)
    ensures
        r == ngram_ok(views(norm@), i as int, size as int),
{
    let ghost v = views(norm@);
    if i > norm.len() || size > (norm.len() - i) / 2 {
        return false;
    }
    let mut k: usize = 0;
    while k < size
        invariant
            v == views(norm@),
            i + 2 * size <= norm@.len(),
            norm@.len() <= usize::MAX,
            k <= size,
            forall|j: int| i <= j < i + k ==> (#[trigger] v[j]).len() > 0,
        decreases size - k,
    {
        if norm[i + k].len() == 0 {
            assert(v[i + k].len() == 0);
            return false;
        }
        k = k + 1;
    }
    ranges_equal(norm, i, i + size, size)
}

pub fn pick_ngram_exec(norm: &Vec<Vec<char>>, i: usize, m: usize) -> (r: usize)
    ensures
        r as int == pick_ngram(views(norm@), i as int, m as int),
{
    let mut size = m;
    while size >= 3
        invariant
            pick_ngram(views(norm@), i as int, m as int) == pick_ngram(
                views(norm@),
                i as int,
                size as int,
            ),
        decreases size,
    {
        if ngram_ok_exec(norm, i, size) {
            return size;
        }
        size = size - 1;
    }
    0
}

pub fn skip_repeats_exec(norm: &Vec<Vec<char>>, at: usize, size: usize, start: usize) -> (r: usize)
    requires
        size > 0,
        start + size <= norm@.len(),
    ensures
        r as int == skip_repeats(views(norm@), at as int, size as int, start as int),
        r >= at,
        at <= norm@.len() ==> r <= norm@.len(),
{
    let mut pos = at;
    while pos <= norm.len() && size <= norm.len() - pos && ranges_equal(norm, pos, start, size)
        invariant
            size > 0,
            start + size <= norm@.len(),
            pos >= at,
            at <= norm@.len() ==> pos <= norm@.len(),
            skip_repeats(views(norm@), at as int, size as int, start as int) == skip_repeats(
                views(norm@),
                pos as int,
                size as int,
                start as int,
            ),
        decreases norm@.len() - pos,
    {
        pos = pos + size;
    }
    pos
}

pub fn compact_repeated_tokens(s: &Vec<char>) -> (r: Vec<char>)
    ensures
        r@ == compact_tokens(s@),
{
    let raw = split_words(s);
    assert(views(raw@) =~= words(s@));
    if raw.len() == 0 {
        return Vec::new();
    }
    let norm = normalize_words(&raw);
    let ghost nv = views(norm@);
    let ghost rv = views(raw@);
    assert(nv =~= norm_words(s@));
    let max_ngram: usize = if raw.len() / 2 < 12 {
        raw.len() / 2
    } else {
        12
    };
    let ghost m = max_ngram as int;
    let mut kept: Vec<Vec<char>> = Vec::new();
    let ghost mut kept_idx: Seq<int> = Seq::empty();
    let mut last: Vec<char> = Vec::new();
    let mut has_last = false;
    let mut index: usize = 0;
    while index < raw.len()
        invariant
            nv == views(norm@),
            rv == views(raw@),
            nv.len() == rv.len(),
            m == max_ngram as int,
            index <= raw@.len(),
            kept_idx + compact_from(nv, m, index as int, last@, has_last) == compact_from(
                nv,
                m,
                0,
                Seq::empty(),
                false,
            ),
            forall|k: int| 0 <= k < kept_idx.len() ==> 0 <= #[trigger] kept_idx[k] < rv.len(),
            views(kept@) == kept_idx.map_values(|k: int| rv[k]),
        decreases raw@.len() - index,
    {
        let size = pick_ngram_exec(&norm, index, max_ngram);
        if size >= 3 {
            assert(ngram_ok(nv, index as int, size as int)) by {
                lemma_pick_ngram_ok(nv, index as int, m);
            }
            let ghost k0 = kept_idx;
            let mut k: usize = 0;
            while k < size
                invariant
                    nv == views(norm@),
                    rv == views(raw@),
                    nv.len() == rv.len(),
                    index + 2 * size <= raw@.len(),
                    raw@.len() <= usize::MAX,
                    k <= size,
                    forall|j: int| 0 <= j < kept_idx.len() ==> 0 <= #[trigger] kept_idx[j] < rv.len(),
                    views(kept@) == kept_idx.map_values(|j: int| rv[j]),
                    kept_idx == k0 + Seq::new(k as nat, |j: int| index + j),
                    forall|j: int| 0 <= j < k0.len() ==> 0 <= #[trigger] k0[j] < rv.len(),
                decreases size - k,
            {
                let t = clone_chars(&raw[index + k]);
                proof {
                    let prev = kept_idx;
                    lemma_views_push(kept@, t);
                    kept_idx = kept_idx.push(index + k);
                    assert(k0 + Seq::new((k + 1) as nat, |j: int| index + j) =~= (k0 + Seq::new(
                        k as nat,
                        |j: int| index + j,
                    )).push(index + k));
                    assert(kept_idx.map_values(|j: int| rv[j]) =~= prev.map_values(|j: int| rv[j]).push(rv[index + k]));
                }
                kept.push(t);
                k = k + 1;
            }
            let next = skip_repeats_exec(&norm, index + 2 * size, size, index);
            proof {
                let ns = Seq::new(size as nat, |j: int| index + j);
                assert(compact_from(nv, m, index as int, last@, has_last) == ns + compact_from(
                    nv,
                    m,
                    next as int,
                    nv[index + size - 1],
                    true,
                ));
                assert(k0 + (ns + compact_from(nv, m, next as int, nv[index + size - 1], true)) =~= (k0
                    + ns) + compact_from(nv, m, next as int, nv[index + size - 1], true));
            }
            last = clone_chars(&norm[index + size - 1]);
            has_last = true;
            index = next;
        } else {
            if has_last && last.len() > 0 && chars_eq(&last, &norm[index]) {
                index = index + 1;
            } else {
                let t = clone_chars(&raw[index]);
                proof {
                    let prev = kept_idx;
                    lemma_views_push(kept@, t);
                    kept_idx = kept_idx.push(index as int);
                    assert(kept_idx.map_values(|j: int| rv[j]) =~= prev.map_values(|j: int| rv[j]).push(rv[index as int]));
                    assert(prev + (seq![index as int] + compact_from(nv, m, index + 1, nv[index as int], true)) =~= kept_idx + compact_from(nv, m, index + 1, nv[index as int], true));
                }
                kept.push(t);
                last = clone_chars(&norm[index]);
                has_last = true;
                index = index + 1;
            }
        }
    }
    let sep = vec![' '];
    assert(sep@ =~= space());
    let joined = join_vecs(&kept, &sep);
    assert(kept_idx =~= compact_from(nv, m, 0, Seq::empty(), false));
    collapse_spaces(&joined)
}


/// The tokens with repeats removed, each kept at its first occurrence.
pub open spec fn dedup(s: Seq<Seq<char>>) -> Seq<Seq<char>>
    decreases s.len(),
{
    if s.len() == 0 {
        Seq::empty()
    } else {
        let d = dedup(s.drop_last());
        if d.contains(s.last()) {
            d
        } else {
            d.push(s.last())
        }
    }
}

/// How many of `d` occur in `other` (`inside`) or do not (`!inside`).
pub open spec fn count_where(d: Seq<Seq<char>>, other: Seq<Seq<char>>, inside: bool) -> nat
    decreases d.len(),
{
    if d.len() == 0 {
        0
    } else {
        count_where(d.drop_last(), other, inside) + if other.contains(d.last()) == inside {
            1nat
        } else {
            0nat
        }
    }
}

/// Size of the intersection of the two token sets.
pub open spec fn shared_count(l: Seq<Seq<char>>, r: Seq<Seq<char>>) -> nat {
    count_where(dedup(l), r, true)
}

/// Size of the union of the two token sets.
pub open spec fn union_count(l: Seq<Seq<char>>, r: Seq<Seq<char>>) -> nat {
    dedup(l).len() + count_where(dedup(r), l, false)
}

/// `transcript_fragments_similar`: equal up to ASCII case and spacing, or one holds the
/// other and both are at least 24 bytes long, or their token sets overlap by at least 80%
/// (intersection over union).
pub open spec fn fragments_similar(l: Seq<char>, r: Seq<char>) -> bool {
    let ln = collapse(lower(l));
    let rn = collapse(lower(r));
    if ln == rn {
        true
    } else if contains(ln, rn) || contains(rn, ln) {
        min_int(utf8_len(ln) as int, utf8_len(rn) as int) >= 24
    } else {
        let lt = tokens(ln);
        let rt = tokens(rn);
        if lt.len() == 0 || rt.len() == 0 {
            false
        } else {
            let i = shared_count(lt, rt);
            let u = union_count(lt, rt);
            u > 0 && 5 * i >= 4 * u
        }
    }
}

pub fn seq_contains_exec(v: &Vec<Vec<char>>, x: &Vec<char>) -> (r: bool)
    ensures
        r == views(v@).contains(x@),
{
    let ghost vv = views(v@);
    let mut i: usize = 0;
    while i < v.len()
        invariant
            vv == views(v@),
            i <= v@.len(),
            forall|k: int| 0 <= k < i ==> vv[k] != x@,
        decreases v.len() - i,
    {
        if chars_eq(&v[i], x) {
            assert(vv[i as int] == x@);
            return true;
        }
        i = i + 1;
    }
    false
}

pub fn dedup_exec(v: &Vec<Vec<char>>) -> (r: Vec<Vec<char>>)
    ensures
        views(r@) == dedup(views(v@)),
{
    let ghost vv = views(v@);
    let mut out: Vec<Vec<char>> = Vec::new();
    for i in 0..v.len()
        invariant
            vv == views(v@),
            views(out@) == dedup(vv.take(i as int)),
    {
        assert(vv.take(i + 1).drop_last() =~= vv.take(i as int));
        assert(vv.take(i + 1).last() == vv[i as int]);
        if !seq_contains_exec(&out, &v[i]) {
            let t = clone_chars(&v[i]);
            proof {
                lemma_views_push(out@, t);
            }
            out.push(t);
        }
    }
    assert(vv.take(v.len() as int) =~= vv);
    out
}

pub fn count_where_exec(d: &Vec<Vec<char>>, other: &Vec<Vec<char>>, inside: bool) -> (r: usize)
    ensures
        r == count_where(views(d@), views(other@), inside),
{
    let ghost dv = views(d@);
    let mut n: usize = 0;
    for i in 0..d.len()
        invariant
            dv == views(d@),
            n == count_where(dv.take(i as int), views(other@), inside),
            n <= i,
    {
        assert(dv.take(i + 1).drop_last() =~= dv.take(i as int));
        assert(dv.take(i + 1).last() == dv[i as int]);
        if seq_contains_exec(other, &d[i]) == inside {
            n = n + 1;
        }
    }
    assert(dv.take(d.len() as int) =~= dv);
    n
}

pub proof fn lemma_dedup_len(s: Seq<Seq<char>>)
    ensures
        dedup(s).len() <= s.len(),
    decreases s.len(),
{
    if s.len() > 0 {
        lemma_dedup_len(s.drop_last());
    }
}

pub proof fn lemma_count_where_len(d: Seq<Seq<char>>, other: Seq<Seq<char>>, inside: bool)
    ensures
        count_where(d, other, inside) <= d.len(),
    decreases d.len(),
{
    if d.len() > 0 {
        lemma_count_where_len(d.drop_last(), other, inside);
    }
}

/// Whether the text is at least `n` bytes long in UTF-8.
pub fn utf8_len_at_least(s: &Vec<char>, n: usize) -> (r: bool)
    ensures
        r == (utf8_len(s@) >= n),
{
    if n == 0 {
        return true;
    }
    let mut total: usize = 0;
    for i in 0..s.len()
        invariant
            n > 0,
            total == utf8_len(s@.take(i as int)),
            total < n,
    {
        assert(s@.take(i + 1).drop_last() =~= s@.take(i as int));
        let u = s[i] as u32;
        let w: usize = if u < 0x80 {
            1
        } else if u < 0x800 {
            2
        } else if u < 0x10000 {
            3
        } else {
            4
        };
        if w >= n - total {
            proof {
                lemma_utf8_len_prefix_mono(s@, i + 1);
            }
            return true;
        }
        total = total + w;
    }
    assert(s@.take(s.len() as int) =~= s@);
    false
}

pub proof fn lemma_utf8_len_prefix_mono(s: Seq<char>, k: int)
    requires
        0 <= k <= s.len(),
    ensures
        utf8_len(s.take(k)) <= utf8_len(s),
    decreases s.len() - k,
{
    if k < s.len() {
        lemma_utf8_len_prefix_mono(s, k + 1);
        assert(s.take(k + 1).drop_last() =~= s.take(k));
    } else {
        assert(s.take(k) =~= s);
    }
}

pub fn transcript_fragments_similar(l: &Vec<char>, r: &Vec<char>) -> (res: bool)
    ensures
        res == fragments_similar(l@, r@),
{
    let ll = to_lower(l);
    let rl = to_lower(r);
    let ln = collapse_spaces(&ll);
    let rn = collapse_spaces(&rl);
    if chars_eq(&ln, &rn) {
        return true;
    }
    if contains_exec(&ln, &rn) || contains_exec(&rn, &ln) {
        return utf8_len_at_least(&ln, 24) && utf8_len_at_least(&rn, 24);
    }
    let lt = transcript_tokens(&ln);
    let rt = transcript_tokens(&rn);
    if lt.len() == 0 || rt.len() == 0 {
        return false;
    }
    let ld = dedup_exec(&lt);
    let rd = dedup_exec(&rt);
    let i = count_where_exec(&ld, &rt, true);
    let extra = count_where_exec(&rd, &lt, false);
    let u: u128 = ld.len() as u128 + extra as u128;
    let i2: u128 = i as u128;
    u > 0 && 5 * i2 >= 4 * u
}


/// The most recent of the last three kept fragments that is similar to `c`, or -1.
pub open spec fn find_similar(kept: Seq<Seq<char>>, c: Seq<char>) -> int {
    let n = kept.len() as int;
    if n >= 1 && fragments_similar(kept[n - 1], c) {
        n - 1
    } else if n >= 2 && fragments_similar(kept[n - 2], c) {
        n - 2
    } else if n >= 3 && fragments_similar(kept[n - 3], c) {
        n - 3
    } else {
        -1
    }
}

/// One step of `clean_transcript_text`: an empty fragment is dropped; a fragment similar to
/// one of the last three kept ones replaces it when it is longer and contains it, and is
/// dropped otherwise; any other fragment is kept.
pub open spec fn clean_step(kept: Seq<Seq<char>>, c: Seq<char>) -> Seq<Seq<char>> {
    if c.len() == 0 {
        kept
    } else {
        let j = find_similar(kept, c);
        if j >= 0 {
            if c.len() > kept[j].len() && contains(c, kept[j]) {
                kept.update(j, c)
            } else {
                kept
            }
        } else {
            kept.push(c)
        }
    }
}

pub open spec fn compacted_fragment(f: Seq<char>) -> Seq<char> {
    collapse(trim(compact_tokens(f)))
}

pub open spec fn clean_fold(frags: Seq<Seq<char>>) -> Seq<Seq<char>>
    decreases frags.len(),
{
    if frags.len() == 0 {
        Seq::empty()
    } else {
        clean_step(clean_fold(frags.drop_last()), compacted_fragment(frags.last()))
    }
}

pub open spec fn sentence_sep() -> Seq<char> {
    seq!['.', ' ']
}

/// `clean_transcript_text`: spacing repaired, each sentence fragment compacted, near
/// duplicates among nearby fragments dropped, and the fragments joined by ". ".
pub open spec fn clean_text(s: Seq<char>) -> Seq<char> {
    let rep = repair_spacing(s);
    let kept = clean_fold(fragments(rep));
    if kept.len() == 0 {
        collapse(compact_tokens(rep))
    } else {
        join(kept, sentence_sep())
    }
}

pub fn find_similar_exec(kept: &Vec<Vec<char>>, c: &Vec<char>) -> (r: Option<usize>)
    ensures
        match r {
            Some(j) => j as int == find_similar(views(kept@), c@) && j < kept@.len(),
            None => find_similar(views(kept@), c@) == -1,
        },
{
    let n = kept.len();
    if n >= 1 && transcript_fragments_similar(&kept[n - 1], c) {
        return Some(n - 1);
    }
    if n >= 2 && transcript_fragments_similar(&kept[n - 2], c) {
        return Some(n - 2);
    }
    if n >= 3 && transcript_fragments_similar(&kept[n - 3], c) {
        return Some(n - 3);
    }
    None
}

pub fn clean_transcript_text(s: &Vec<char>) -> (r: Vec<char>)
    ensures
        r@ == clean_text(s@),
{
    let rep = repair_transcript_spacing(s);
    let frags = split_transcript_fragments(&rep);
    let ghost fv = views(frags@);
    let mut kept: Vec<Vec<char>> = Vec::new();
    for i in 0..frags.len()
        invariant
            fv == views(frags@),
            views(kept@) == clean_fold(fv.take(i as int)),
    {
        assert(fv.take(i + 1).drop_last() =~= fv.take(i as int));
        assert(fv.take(i + 1).last() == fv[i as int]);
        let compacted0 = compact_repeated_tokens(&frags[i]);
        let compacted1 = trimmed(&compacted0, CharClass::Whitespace);
        let compacted = collapse_spaces(&compacted1);
        if compacted.len() > 0 {
            let j = find_similar_exec(&kept, &compacted);
            if let Some(ju) = j {
                if compacted.len() > kept[ju].len() && contains_exec(&compacted, &kept[ju]) {
                    let ghost prev = kept@;
                    kept.set(ju, compacted);
                    proof {
                        assert(views(kept@) =~= views(prev).update(ju as int, compacted@));
                    }
                }
            } else {
                proof {
                    lemma_views_push(kept@, compacted);
                }
                kept.push(compacted);
            }
        }
    }
    assert(fv.take(frags.len() as int) =~= fv);
    if kept.len() == 0 {
        let c = compact_repeated_tokens(&rep);
        collapse_spaces(&c)
    } else {
        let sep = vec!['.', ' '];
        assert(sep@ =~= sentence_sep());
        join_vecs(&kept, &sep)
    }
}

/// The suffix of `et` of length `o` is the prefix of `it` of length `o`.
pub open spec fn overlap_at(et: Seq<Seq<char>>, it: Seq<Seq<char>>, o: int) -> bool {
    et.skip(et.len() - o) == it.take(o)
}

/// The longest word overlap of at most `o` words, or 0.
pub open spec fn pick_overlap(et: Seq<Seq<char>>, it: Seq<Seq<char>>, o: int) -> int
    decreases o,
{
    if o < 1 {
        0
    } else if overlap_at(et, it, o) {
        o
    } else {
        pick_overlap(et, it, o - 1)
    }
}

pub open spec fn abs_diff(a: int, b: int) -> int {
    if a >= b {
        a - b
    } else {
        b - a
    }
}

/// `stitch_text`: the part of the incoming text that the existing text does not already
/// hold. Both are cleaned and trimmed first; nothing is new when the incoming text is empty,
/// equal to or a suffix of the existing one, or contained in it and at least 24 characters
/// long; when the existing text ends with the words the incoming one starts with (up to 20
/// words, compared as normalized tokens), the incoming words after that overlap; nothing
/// when the two are similar and differ in length by at most a quarter of the incoming
/// length; otherwise the whole incoming text.
pub open spec fn stitch(existing: Seq<char>, incoming: Seq<char>) -> Seq<char> {
    let e = trim(clean_text(existing));
    let i = trim(clean_text(incoming));
    if i.len() == 0 {
        Seq::empty()
    } else if e.len() == 0 {
        i
    } else if e == i || ends_with(e, i) {
        Seq::empty()
    } else if contains(e, i) && i.len() >= 24 {
        Seq::empty()
    } else {
        let ew = words(e);
        let iw = words(i);
        let et = ew.map_values(|w: Seq<char>| norm_token(w));
        let it = iw.map_values(|w: Seq<char>| norm_token(w));
        let maxo = min_int(min_int(ew.len() as int, iw.len() as int), 20);
        let o = pick_overlap(et, it, maxo);
        if o >= 1 {
            collapse(join(iw.skip(o), space()))
        } else if fragments_similar(e, i) && abs_diff(e.len() as int, i.len() as int) <= i.len()
            / 4 {
            Seq::empty()
        } else {
            i
        }
    }
}

pub fn overlap_at_exec(et: &Vec<Vec<char>>, it: &Vec<Vec<char>>, o: usize) -> (r: bool)
    requires
        o <= et@.len(),
        o <= it@.len(),
    ensures
        r == overlap_at(views(et@), views(it@), o as int),
{
    let ghost ev = views(et@);
    let ghost iv = views(it@);
    let base = et.len() - o;
    let _n = it.len();
    let mut k: usize = 0;
    while k < o
        invariant
            ev == views(et@),
            iv == views(it@),
            base + o == et@.len(),
            et@.len() <= usize::MAX,
            o <= it@.len(),
            k <= o,
            forall|j: int| 0 <= j < k ==> #[trigger] ev.skip(base as int)[j] == iv.take(o as int)[j],
        decreases o - k,
    {
        if !chars_eq(&et[base + k], &it[k]) {
            assert(ev.skip(base as int)[k as int] != iv.take(o as int)[k as int]);
            return false;
        }
        k = k + 1;
    }
    assert(ev.skip(base as int) =~= iv.take(o as int));
    true
}

pub fn pick_overlap_exec(et: &Vec<Vec<char>>, it: &Vec<Vec<char>>, maxo: usize) -> (r: usize)
    requires
        maxo <= et@.len(),
        maxo <= it@.len(),
    ensures
        r as int == pick_overlap(views(et@), views(it@), maxo as int),
        r <= maxo,
        r >= 1 ==> overlap_at(views(et@), views(it@), r as int),
        forall|k: int|
            1 <= k <= maxo && #[trigger] overlap_at(views(et@), views(it@), k) ==> r >= k,
{
    proof {
        assert forall|k: int|
            1 <= k <= maxo && #[trigger] overlap_at(views(et@), views(it@), k) implies pick_overlap(
            views(et@),
            views(it@),
            maxo as int,
        ) >= k by {
            lemma_pick_overlap_longest(views(et@), views(it@), maxo as int, k);
        }
        lemma_pick_overlap_picks(views(et@), views(it@), maxo as int);
    }
    let mut o = maxo;
    while o >= 1
        invariant
            o <= maxo <= et@.len(),
            maxo <= it@.len(),
            pick_overlap(views(et@), views(it@), maxo as int) == pick_overlap(
                views(et@),
                views(it@),
                o as int,
            ),
            forall|k: int|
                1 <= k <= maxo && #[trigger] overlap_at(views(et@), views(it@), k) ==> pick_overlap(
                    views(et@),
                    views(it@),
                    maxo as int,
                ) >= k,
            pick_overlap(views(et@), views(it@), maxo as int) >= 1 ==> overlap_at(
                views(et@),
                views(it@),
                pick_overlap(views(et@), views(it@), maxo as int),
            ),
        decreases o,
    {
        if overlap_at_exec(et, it, o) {
            return o;
        }
        o = o - 1;
    }
    0
}

pub fn stitch_chars(existing: &Vec<char>, incoming: &Vec<char>) -> (r: Vec<char>)
    ensures
        r@ == stitch(existing@, incoming@),
{
    let e0 = clean_transcript_text(existing);
    let i0 = clean_transcript_text(incoming);
    let e = trimmed(&e0, CharClass::Whitespace);
    let i = trimmed(&i0, CharClass::Whitespace);
    if i.len() == 0 {
        return Vec::new();
    }
    if e.len() == 0 {
        return i;
    }
    if chars_eq(&e, &i) || ends_with_exec(&e, &i) {
        return Vec::new();
    }
    if contains_exec(&e, &i) && i.len() >= 24 {
        return Vec::new();
    }
    let ew = split_words(&e);
    let iw = split_words(&i);
    let et = normalize_words(&ew);
    let it = normalize_words(&iw);
    proof {
        assert(views(ew@) =~= words(e@));
        assert(views(iw@) =~= words(i@));
        assert(views(et@).len() == views(ew@).len());
        assert(views(it@).len() == views(iw@).len());
    }
    let m1 = if ew.len() < iw.len() {
        ew.len()
    } else {
        iw.len()
    };
    let maxo = if m1 < 20 {
        m1
    } else {
        20
    };
    let o = pick_overlap_exec(&et, &it, maxo);
    if o >= 1 {
        let mut rest: Vec<Vec<char>> = Vec::new();
        let mut k = o;
        while k < iw.len()
            invariant
                o <= k <= iw@.len(),
                views(rest@) == views(iw@).subrange(o as int, k as int),
            decreases iw.len() - k,
        {
            let t = clone_chars(&iw[k]);
            proof {
                lemma_views_push(rest@, t);
                assert(views(iw@).subrange(o as int, k + 1) =~= views(iw@).subrange(o as int, k as int).push(t@));
            }
            rest.push(t);
            k = k + 1;
        }
        assert(views(iw@).subrange(o as int, iw@.len() as int) =~= views(iw@).skip(o as int));
        let sep = vec![' '];
        assert(sep@ =~= space());
        let joined = join_vecs(&rest, &sep);
        return collapse_spaces(&joined);
    }
    if transcript_fragments_similar(&e, &i) {
        let el = e.len();
        let il = i.len();
        let d = if el >= il {
            el - il
        } else {
            il - el
        };
        if d <= il / 4 {
            return Vec::new();
        }
    }
    i
}


proof fn lemma_pick_overlap_bound(et: Seq<Seq<char>>, it: Seq<Seq<char>>, o: int)
    ensures
        0 <= pick_overlap(et, it, o),
        o >= 0 ==> pick_overlap(et, it, o) <= o,
    decreases o,
{
    if o >= 1 && !overlap_at(et, it, o) {
        lemma_pick_overlap_bound(et, it, o - 1);
    }
}

/// What stitching gives: nothing where the incoming text is blank once cleaned, all of it
/// (cleaned and trimmed) where the existing text is blank, nothing for a text stitched onto
/// itself, and otherwise always some last words of the cleaned incoming text.
pub proof fn lemma_stitch_laws(existing: Seq<char>, incoming: Seq<char>)
    ensures
        trim(clean_text(incoming)).len() == 0 ==> stitch(existing, incoming).len() == 0,
        trim(clean_text(existing)).len() == 0 ==> stitch(existing, incoming) == trim(
            clean_text(incoming),
        ),
        stitch(incoming, incoming).len() == 0,
        ({
            let iw = words(trim(clean_text(incoming)));
            let rw = words(stitch(existing, incoming));
            rw.len() <= iw.len() && rw == iw.skip(iw.len() - rw.len())
        }),
{
    let e = trim(clean_text(existing));
    let i = trim(clean_text(incoming));
    let iw = words(i);
    let r = stitch(existing, incoming);
    assert(words(Seq::<char>::empty()) =~= Seq::<Seq<char>>::empty());
    assert(iw.skip(iw.len() - 0) =~= Seq::<Seq<char>>::empty());
    assert(iw.skip(0) =~= iw);
    if i.len() > 0 && e.len() > 0 && !(e == i || crate::text::ends_with(e, i)) && !(contains(e, i)
        && i.len() >= 24) {
        let ew = words(e);
        let et = ew.map_values(|w: Seq<char>| norm_token(w));
        let it = iw.map_values(|w: Seq<char>| norm_token(w));
        let maxo = min_int(min_int(ew.len() as int, iw.len() as int), 20);
        let o = pick_overlap(et, it, maxo);
        lemma_pick_overlap_bound(et, it, maxo);
        if o >= 1 {
            let rest = iw.skip(o);
            crate::text::lemma_words_shape(i);
            assert forall|k: int| 0 <= k < rest.len() implies crate::text::is_word(#[trigger] rest[k]) by {
                assert(rest[k] == iw[k + o]);
            }
            crate::text::lemma_words_of_collapse(join(rest, space()));
            crate::text::lemma_words_of_join(rest);
            assert(r == collapse(join(rest, space())));
            assert(words(r) == rest);
            assert(iw.skip(iw.len() - rest.len()) =~= rest);
        }
    }
}


proof fn lemma_skip_repeats_ge(norm: Seq<Seq<char>>, at: int, size: int, start: int)
    ensures
        skip_repeats(norm, at, size, start) >= at,
    decreases norm.len() - at,
{
    if size > 0 && 0 <= at && at + size <= norm.len() && norm.subrange(at, at + size)
        == norm.subrange(start, start + size) {
        lemma_skip_repeats_ge(norm, at + size, size, start);
    }
}

/// The kept word positions run upward from `index` and stay inside the text.
proof fn lemma_compact_from_increasing(
    norm: Seq<Seq<char>>,
    m: int,
    index: int,
    last: Seq<char>,
    has_last: bool,
)
    requires
        0 <= index,
    ensures
        ({
            let r = compact_from(norm, m, index, last, has_last);
            &&& forall|k: int| 0 <= k < r.len() ==> index <= #[trigger] r[k] < norm.len()
            &&& forall|a: int, b: int| 0 <= a < b < r.len() ==> #[trigger] r[a] < #[trigger] r[b]
        }),
    decreases norm.len() - index,
{
    if index < norm.len() {
        let size = pick_ngram(norm, index, m);
        if size >= 3 {
            lemma_pick_ngram_ok(norm, index, m);
            let next = skip_repeats(norm, index + 2 * size, size, index);
            lemma_skip_repeats_ge(norm, index + 2 * size, size, index);
            if next > index && next <= norm.len() {
                lemma_compact_from_increasing(norm, m, next, norm[index + size - 1], true);
                let head = Seq::new(size as nat, |k: int| index + k);
                let tail = compact_from(norm, m, next, norm[index + size - 1], true);
                let r = head + tail;
                assert(r == compact_from(norm, m, index, last, has_last));
                assert forall|a: int, b: int| 0 <= a < b < r.len() implies #[trigger] r[a]
                    < #[trigger] r[b] by {
                    if b < size {
                    } else if a < size {
                        assert(r[b] == tail[b - size]);
                    } else {
                        assert(r[a] == tail[a - size] && r[b] == tail[b - size]);
                    }
                }
                assert forall|k: int| 0 <= k < r.len() implies index <= #[trigger] r[k] < norm.len() by {
                    if k >= size {
                        assert(r[k] == tail[k - size]);
                    }
                }
            }
        } else if has_last && last.len() > 0 && last == norm[index] {
            lemma_compact_from_increasing(norm, m, index + 1, last, has_last);
        } else {
            lemma_compact_from_increasing(norm, m, index + 1, norm[index], true);
            let tail = compact_from(norm, m, index + 1, norm[index], true);
            let r = seq![index] + tail;
            assert(r == compact_from(norm, m, index, last, has_last));
            assert forall|a: int, b: int| 0 <= a < b < r.len() implies #[trigger] r[a]
                < #[trigger] r[b] by {
                if a == 0 {
                    assert(r[b] == tail[b - 1]);
                } else {
                    assert(r[a] == tail[a - 1] && r[b] == tail[b - 1]);
                }
            }
            assert forall|k: int| 0 <= k < r.len() implies index <= #[trigger] r[k] < norm.len() by {
                if k >= 1 {
                    assert(r[k] == tail[k - 1]);
                }
            }
        }
    }
}

/// Compacting keeps some of the words of the text, in their order, and adds none: the words
/// of the result are the words of the text at positions that run upward.
pub proof fn lemma_compact_tokens_subsequence(s: Seq<char>)
    ensures
        ({
            let raw = words(s);
            let idx = compact_from(
                norm_words(s),
                min_int(12, raw.len() as int / 2),
                0,
                Seq::empty(),
                false,
            );
            &&& raw.len() > 0 ==> words(compact_tokens(s)) == idx.map_values(|k: int| raw[k])
            &&& raw.len() == 0 ==> compact_tokens(s).len() == 0
            &&& forall|k: int| 0 <= k < idx.len() ==> 0 <= #[trigger] idx[k] < raw.len()
            &&& forall|a: int, b: int| 0 <= a < b < idx.len() ==> #[trigger] idx[a] < #[trigger] idx[b]
            &&& words(compact_tokens(s)).len() <= raw.len()
        }),
{
    let raw = words(s);
    let m = min_int(12, raw.len() as int / 2);
    let norm = norm_words(s);
    let idx = compact_from(norm, m, 0, Seq::empty(), false);
    lemma_compact_from_increasing(norm, m, 0, Seq::empty(), false);
    assert(norm.len() == raw.len());
    lemma_strictly_increasing_len(idx, raw.len() as int);
    if raw.len() > 0 {
        let kept = idx.map_values(|k: int| raw[k]);
        crate::text::lemma_words_shape(s);
        assert forall|j: int| 0 <= j < kept.len() implies crate::text::is_word(#[trigger] kept[j]) by {
            assert(kept[j] == raw[idx[j]]);
        }
        crate::text::lemma_words_of_collapse(join(kept, space()));
        crate::text::lemma_words_of_join(kept);
    } else {
        assert(words(Seq::<char>::empty()) =~= Seq::<Seq<char>>::empty());
    }
}

/// A strictly increasing sequence of positions below `n` has at most `n` entries.
proof fn lemma_strictly_increasing_len(idx: Seq<int>, n: int)
    requires
        forall|k: int| 0 <= k < idx.len() ==> 0 <= #[trigger] idx[k] < n,
        forall|a: int, b: int| 0 <= a < b < idx.len() ==> #[trigger] idx[a] < #[trigger] idx[b],
    ensures
        idx.len() <= if n > 0 { n } else { 0 },
    decreases idx.len(),
{
    if idx.len() > 0 {
        let front = idx.drop_last();
        assert forall|a: int, b: int| 0 <= a < b < front.len() implies #[trigger] front[a] < #[trigger] front[b] by {
            assert(front[a] == idx[a] && front[b] == idx[b]);
        }
        assert forall|k: int| 0 <= k < front.len() implies 0 <= #[trigger] front[k] < idx.last() by {
            assert(front[k] == idx[k]);
            assert(idx[k] < idx[idx.len() - 1]);
        }
        lemma_strictly_increasing_len(front, idx.last());
    }
}


proof fn lemma_pick_overlap_picks(et: Seq<Seq<char>>, it: Seq<Seq<char>>, o: int)
    ensures
        pick_overlap(et, it, o) >= 1 ==> overlap_at(et, it, pick_overlap(et, it, o)),
    decreases o,
{
    if o >= 1 && !overlap_at(et, it, o) {
        lemma_pick_overlap_picks(et, it, o - 1);
    }
}

/// The overlap picked is the longest: every overlap of at most `o` words is no longer than
/// it, and what it picks (if anything) is an overlap.
pub proof fn lemma_pick_overlap_longest(et: Seq<Seq<char>>, it: Seq<Seq<char>>, o: int, k: int)
    requires
        1 <= k <= o,
        et.skip(et.len() - k) == it.take(k),
    ensures
        pick_overlap(et, it, o) >= k,
        et.skip(et.len() - pick_overlap(et, it, o)) == it.take(pick_overlap(et, it, o)),
    decreases o,
{
    if !overlap_at(et, it, o) {
        lemma_pick_overlap_longest(et, it, o - 1, k);
    }
}

/// Stitching removes the longest overlap: where the last `k` words of the cleaned existing
/// text equal the first `k` words of the cleaned incoming text (as normalized tokens, for
/// any `k` from 1 up to both word counts and at most 20), the stitched text has at most the
/// incoming words after those `k`.
pub proof fn lemma_stitch_removes_longest_overlap(existing: Seq<char>, incoming: Seq<char>, k: int)
    requires
        ({
            let ew = words(trim(clean_text(existing)));
            let iw = words(trim(clean_text(incoming)));
            let et = ew.map_values(|w: Seq<char>| norm_token(w));
            let it = iw.map_values(|w: Seq<char>| norm_token(w));
            &&& 1 <= k <= ew.len()
            &&& k <= iw.len()
            &&& k <= 20
            &&& et.skip(et.len() - k) == it.take(k)
        }),
    ensures
        words(stitch(existing, incoming)).len() <= words(trim(clean_text(incoming))).len() - k,
{
    let e = trim(clean_text(existing));
    let i = trim(clean_text(incoming));
    let ew = words(e);
    let iw = words(i);
    let et = ew.map_values(|w: Seq<char>| norm_token(w));
    let it = iw.map_values(|w: Seq<char>| norm_token(w));
    lemma_stitch_laws(existing, incoming);
    assert(words(Seq::<char>::empty()) =~= Seq::<Seq<char>>::empty());
    if i.len() > 0 && e.len() > 0 && !(e == i || crate::text::ends_with(e, i)) && !(contains(e, i)
        && i.len() >= 24) {
        let maxo = min_int(min_int(ew.len() as int, iw.len() as int), 20);
        lemma_pick_overlap_longest(et, it, maxo, k);
        let o = pick_overlap(et, it, maxo);
        lemma_pick_overlap_bound(et, it, maxo);
        let rest = iw.skip(o);
        crate::text::lemma_words_shape(i);
        assert forall|j: int| 0 <= j < rest.len() implies crate::text::is_word(#[trigger] rest[j]) by {
            assert(rest[j] == iw[j + o]);
        }
        crate::text::lemma_words_of_collapse(join(rest, space()));
        crate::text::lemma_words_of_join(rest);
        assert(stitch(existing, incoming) == collapse(join(rest, space())));
        assert(words(stitch(existing, incoming)) == rest);
    } else {
        if i.len() == 0 {
            assert(iw =~= Seq::<Seq<char>>::empty()) by {
                assert(crate::text::words_state(i) == (Seq::<Seq<char>>::empty(), Seq::<char>::empty()));
            }
        }
        if e.len() == 0 {
            assert(ew =~= Seq::<Seq<char>>::empty()) by {
                assert(crate::text::words_state(e) == (Seq::<Seq<char>>::empty(), Seq::<char>::empty()));
            }
        }
    }
}

} // verus!
