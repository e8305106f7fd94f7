//! Preparing answer text for speech synthesis.
use vstd::prelude::*;
use crate::markdown::{lines, split_lines};
use crate::text::{
    append_vec, from_chars, join, join_vecs, slice_vec, to_chars, trim, trim_start_cls, trimmed,
    views, CharClass,
};

verus! {

pub const MAX_SPOKEN_CHARS: usize = 1200;
pub const MAX_SPOKEN_SENTENCES: usize = 8;

pub open spec fn is_markup(c: char) -> bool {
    c == '`' || c == '*' || c == '_'
}

/// The text without backticks, asterisks and underscores.
pub open spec fn strip_markup(s: Seq<char>) -> Seq<char>
    decreases s.len(),
{
    if s.len() == 0 {
        Seq::empty()
    } else if is_markup(s.last()) {
        strip_markup(s.drop_last())
    } else {
        strip_markup(s.drop_last()).push(s.last())
    }
}

/// `clean_spoken_line`: a line without heading marks, list markers and emphasis, or none
/// when nothing is left.
pub open spec fn spoken_line(line: Seq<char>) -> Option<Seq<char>> {
    let t = trim(line);
    if t.len() == 0 {
        None
    } else {
        let c = strip_markup(
            trim(trim_start_cls(trim(trim_start_cls(t, CharClass::Hash)), CharClass::ListMark)),
        );
        if c.len() == 0 {
            None
        } else {
            Some(c)
        }
    }
}

pub fn clean_spoken_line(line: &Vec<char>) -> (r: Option<Vec<char>>)
    ensures
        crate::markdown::opt_view(r) == spoken_line(line@),
{
    let t = trimmed(line, CharClass::Whitespace);
    if t.len() == 0 {
        return None;
    }
    let a = crate::text::trim_start_index(&t, 0, t.len(), CharClass::Hash);
    assert(t@.subrange(0, t@.len() as int) =~= t@);
    let a1 = slice_vec(&t, a, t.len());
    let b = trimmed(&a1, CharClass::Whitespace);
    let c0 = crate::text::trim_start_index(&b, 0, b.len(), CharClass::ListMark);
    assert(b@.subrange(0, b@.len() as int) =~= b@);
    let c1 = slice_vec(&b, c0, b.len());
    let d = trimmed(&c1, CharClass::Whitespace);
    let mut out: Vec<char> = Vec::new();
    for i in 0..d.len()
        invariant
            out@ == strip_markup(d@.take(i as int)),
    {
        assert(d@.take(i + 1).drop_last() =~= d@.take(i as int));
        let ch = d[i];
        if !(ch == '`' || ch == '*' || ch == '_') {
            out.push(ch);
        }
    }
    assert(d@.take(d.len() as int) =~= d@);
    if out.len() == 0 {
        None
    } else {
        Some(out)
    }
}

pub open spec fn spoken_lines(ls: Seq<Seq<char>>) -> Seq<Seq<char>>
    decreases ls.len(),
{
    if ls.len() == 0 {
        Seq::empty()
    } else {
        match spoken_line(ls.last()) {
            Some(c) => spoken_lines(ls.drop_last()).push(c),
            None => spoken_lines(ls.drop_last()),
        }
    }
}

/// Runs of spaces made single.
pub open spec fn squeeze_spaces(s: Seq<char>) -> Seq<char>
    decreases s.len(),
{
    if s.len() == 0 {
        Seq::empty()
    } else {
        let r = squeeze_spaces(s.drop_last());
        if s.last() == ' ' && r.len() > 0 && r.last() == ' ' {
            r
        } else {
            r.push(s.last())
        }
    }
}

pub open spec fn is_terminator(c: char) -> bool {
    c == '.' || c == '!' || c == '?'
}

pub open spec fn terminator_count(s: Seq<char>) -> nat
    decreases s.len(),
{
    if s.len() == 0 {
        0
    } else {
        terminator_count(s.drop_last()) + if is_terminator(s.last()) {
            1nat
        } else {
            0nat
        }
    }
}

/// The first length `i >= from` at which the prefix of that length holds `k` sentence
/// terminators, or -1.
pub open spec fn limit_from(s: Seq<char>, k: nat, from: int) -> int
    decreases s.len() + 1 - from,
{
    if from < 1 || from > s.len() {
        -1
    } else if terminator_count(s.take(from)) == k {
        from
    } else {
        limit_from(s, k, from + 1)
    }
}

/// Index of the last sentence terminator, or -1.
pub open spec fn last_terminator(s: Seq<char>) -> int
    decreases s.len(),
{
    if s.len() == 0 {
        -1
    } else if is_terminator(s.last()) {
        s.len() - 1
    } else {
        last_terminator(s.drop_last())
    }
}

/// `prepare_spoken_text`: the cleaned lines joined by spaces, cut after the eighth
/// sentence, or else to 1200 characters (ending at the last sentence that fits, or with
/// "..." when none ends there).
pub open spec fn spoken_text(text: Seq<char>) -> Seq<char> {
    let n = squeeze_spaces(join(spoken_lines(lines(text)), seq![' ']));
    let lim = limit_from(n, MAX_SPOKEN_SENTENCES as nat, 1);
    if lim >= 0 {
        trim(n.take(lim))
    } else if n.len() <= MAX_SPOKEN_CHARS {
        n
    } else {
        let t = n.take(MAX_SPOKEN_CHARS as int);
        let p = last_terminator(t);
        if p >= 0 {
            t.take(p + 1)
        } else {
            t + seq!['.', '.', '.']
        }
    }
}

pub fn squeeze_spaces_exec(s: &Vec<char>) -> (r: Vec<char>)
    ensures
        r@ == squeeze_spaces(s@),
{
    let mut out: Vec<char> = Vec::new();
    for i in 0..s.len()
        invariant
            out@ == squeeze_spaces(s@.take(i as int)),
    {
        assert(s@.take(i + 1).drop_last() =~= s@.take(i as int));
        let ch = s[i];
        if !(ch == ' ' && out.len() > 0 && out[out.len() - 1] == ' ') {
            out.push(ch);
        }
    }
    assert(s@.take(s.len() as int) =~= s@);
    out
}

pub fn sentence_limit_index(s: &Vec<char>, max_sentences: usize) -> (r: Option<usize>)
    requires
        max_sentences >= 1,
    ensures
        match r {
            Some(i) => i as int == limit_from(s@, max_sentences as nat, 1) && i <= s@.len(),
            None => limit_from(s@, max_sentences as nat, 1) == -1,
        },
{
    let mut count: usize = 0;
    let mut i: usize = 0;
    assert(s@.take(0) =~= Seq::<char>::empty());
    while i < s.len()
        invariant
            i <= s@.len(),
            count == terminator_count(s@.take(i as int)),
            count < max_sentences,
            max_sentences >= 1,
            limit_from(s@, max_sentences as nat, 1) == limit_from(
                s@,
                max_sentences as nat,
                i as int + 1,
            ),
        decreases s.len() - i,
    {
        assert(s@.take(i + 1).drop_last() =~= s@.take(i as int));
        let ch = s[i];
        if ch == '.' || ch == '!' || ch == '?' {
            count = count + 1;
        }
        if count == max_sentences {
            return Some(i + 1);
        }
        i = i + 1;
    }
    None
}


pub fn last_terminator_exec(s: &Vec<char>) -> (r: Option<usize>)
    ensures
        match r {
            Some(p) => p as int == last_terminator(s@) && p < s@.len(),
            None => last_terminator(s@) == -1,
        },
{
    let mut j = s.len();
    assert(s@.take(j as int) =~= s@);
    while j > 0
        invariant
            j <= s@.len(),
            last_terminator(s@) == last_terminator(s@.take(j as int)),
        decreases j,
    {
        assert(s@.take(j as int).drop_last() =~= s@.take(j - 1));
        let ch = s[j - 1];
        if ch == '.' || ch == '!' || ch == '?' {
            return Some(j - 1);
        }
        j = j - 1;
    }
    None
}

pub fn prepare_spoken_text_chars(text: &Vec<char>) -> (r: Vec<char>)
    ensures
        r@ == spoken_text(text@),
{
    let ls = split_lines(text);
    let ghost lv = views(ls@);
    let mut kept: Vec<Vec<char>> = Vec::new();
    for i in 0..ls.len()
        invariant
            lv == views(ls@),
            views(kept@) == spoken_lines(lv.take(i as int)),
    {
        assert(lv.take(i + 1).drop_last() =~= lv.take(i as int));
        assert(lv.take(i + 1).last() == lv[i as int]);
        let c = clean_spoken_line(&ls[i]);
        if let Some(line) = c {
            proof {
                crate::text::lemma_views_push(kept@, line);
            }
            kept.push(line);
        }
    }
    assert(lv.take(ls.len() as int) =~= lv);
    let sep = vec![' '];
    let joined = join_vecs(&kept, &sep);
    assert(sep@ =~= seq![' ']);
    assert(kept@.map_values(|p: Vec<char>| p@) =~= views(kept@));
    let normalized = squeeze_spaces_exec(&joined);
    let lim = sentence_limit_index(&normalized, MAX_SPOKEN_SENTENCES);
    if let Some(idx) = lim {
        let cut = slice_vec(&normalized, 0, idx);
        assert(cut@ =~= normalized@.take(idx as int));
        return trimmed(&cut, CharClass::Whitespace);
    }
    if normalized.len() <= MAX_SPOKEN_CHARS {
        return normalized;
    }
    let truncated = slice_vec(&normalized, 0, MAX_SPOKEN_CHARS);
    assert(truncated@ =~= normalized@.take(MAX_SPOKEN_CHARS as int));
    match last_terminator_exec(&truncated) {
        Some(p) => {
            let r = slice_vec(&truncated, 0, p + 1);
            assert(r@ =~= truncated@.take(p + 1));
            r
        },
        None => {
            let mut r = truncated;
            r.push('.');
            r.push('.');
            r.push('.');
            assert(r@ =~= truncated@ + seq!['.', '.', '.']);
            r
        },
    }
}

pub fn prepare_spoken_text(text: &str) -> (r: String)
    ensures
        r@ == spoken_text(text@),
{
    let t = to_chars(text);
    let p = prepare_spoken_text_chars(&t);
    from_chars(&p)
}

/// Spoken text with fewer than eight sentence ends is never longer than 1200 characters and
/// "...".
pub proof fn lemma_spoken_text_len(text: Seq<char>)
    requires
        limit_from(
            squeeze_spaces(join(spoken_lines(lines(text)), seq![' '])),
            MAX_SPOKEN_SENTENCES as nat,
            1,
        ) < 0,
    ensures
        spoken_text(text).len() <= MAX_SPOKEN_CHARS + 3,
{
    let n = squeeze_spaces(join(spoken_lines(lines(text)), seq![' ']));
    let lim = limit_from(n, MAX_SPOKEN_SENTENCES as nat, 1);
    if n.len() > MAX_SPOKEN_CHARS {
        let t = n.take(MAX_SPOKEN_CHARS as int);
        lemma_last_terminator_bound(t);
    }
}

pub proof fn lemma_last_terminator_bound(s: Seq<char>)
    ensures
        last_terminator(s) < s.len(),
        last_terminator(s) >= -1,
    decreases s.len(),
{
    if s.len() > 0 && !is_terminator(s.last()) {
        lemma_last_terminator_bound(s.drop_last());
    }
}

pub proof fn lemma_trim_end_len(s: Seq<char>)
    ensures
        crate::text::trim_end_cls(s, CharClass::Whitespace).len() <= s.len(),
    decreases s.len(),
{
    if s.len() > 0 && crate::text::in_class(CharClass::Whitespace, s.last()) {
        lemma_trim_end_len(s.drop_last());
    }
}

pub proof fn lemma_limit_from_bound(s: Seq<char>, k: nat, from: int)
    ensures
        limit_from(s, k, from) <= s.len(),
        limit_from(s, k, from) >= 0 ==> limit_from(s, k, from) >= 1,
    decreases s.len() + 1 - from,
{
    if from >= 1 && from <= s.len() && terminator_count(s.take(from)) != k {
        lemma_limit_from_bound(s, k, from + 1);
    }
}

} // verus!
