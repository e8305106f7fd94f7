//! Tidying of summary markdown: headings, list items and titled bullets.
use vstd::prelude::*;
use crate::text::{
    append_vec, char_in_class, char_is_whitespace, clone_chars, collapse, collapse_spaces,
    contains, contains_exec, in_class, is_ws, join, join_vecs, lemma_views_push, slice_vec,
    split_words, starts_with, trim, trim_bounds, trim_cls, trim_end_cls, trim_end_index,
    trim_start_cls, trim_start_index, trimmed, views, words, CharClass,
};

verus! {

pub open spec fn opt_view(o: Option<Vec<char>>) -> Option<Seq<char>> {
    match o {
        Some(v) => Some(v@),
        None => None,
    }
}

pub open spec fn opt_string_view(o: &Option<String>) -> Option<Seq<char>> {
    match o {
        Some(v) => Some(v@),
        None => None,
    }
}

/// `str::trim_start`.
pub open spec fn trim_start_ws(s: Seq<char>) -> Seq<char> {
    trim_start_cls(s, CharClass::Whitespace)
}

/// `markdown_heading_text`: for a line that starts with `#` (after leading whitespace), the
/// text after all the leading `#`, trimmed.
pub open spec fn heading_text(line: Seq<char>) -> Option<Seq<char>> {
    let t = trim_start_ws(line);
    if t.len() > 0 && t[0] == '#' {
        Some(trim(trim_start_cls(t.drop_first(), CharClass::Hash)))
    } else {
        None
    }
}

pub fn heading_text_exec(line: &Vec<char>) -> (r: Option<Vec<char>>)
    ensures
        opt_view(r) == heading_text(line@),
{
    let a = trim_start_index(line, 0, line.len(), CharClass::Whitespace);
    assert(line@.subrange(0, line@.len() as int) =~= line@);
    if a < line.len() && line[a] == '#' {
        assert(line@.subrange(a as int, line@.len() as int).drop_first() =~= line@.subrange(
            a + 1,
            line@.len() as int,
        ));
        let b = trim_start_index(line, a + 1, line.len(), CharClass::Hash);
        let (c, d) = trim_bounds(line, b, line.len(), CharClass::Whitespace);
        Some(slice_vec(line, c, d))
    } else {
        None
    }
}

pub open spec fn leading_digits(s: Seq<char>) -> nat
    decreases s.len(),
{
    if s.len() > 0 && '0' <= s[0] <= '9' {
        1 + leading_digits(s.drop_first())
    } else {
        0
    }
}

pub open spec fn bullet_prefix(t: Seq<char>) -> bool {
    t.len() >= 2 && (t[0] == '-' || t[0] == '*' || t[0] == '+' || t[0] == '•') && t[1] == ' '
}

/// `markdown_list_item_body`: for a line that starts (after leading whitespace) with `- `,
/// `* `, `+ ` or `• `, the rest trimmed; for one that starts with digits and then `.` or `)`,
/// the rest with its leading whitespace removed, when it is not empty.
pub open spec fn list_item_body(line: Seq<char>) -> Option<Seq<char>> {
    let t = trim_start_ws(line);
    if bullet_prefix(t) {
        Some(trim(t.skip(2int)))
    } else {
        let n = leading_digits(t);
        if n == 0 {
            None
        } else if n < t.len() && (t[n as int] == '.' || t[n as int] == ')') {
            let body = trim_start_ws(t.skip(n as int + 1));
            if body.len() > 0 {
                Some(body)
            } else {
                None
            }
        } else {
            None
        }
    }
}

pub fn list_item_body_exec(line: &Vec<char>) -> (r: Option<Vec<char>>)
    ensures
        opt_view(r) == list_item_body(line@),
{
    let len = line.len();
    let a = trim_start_index(line, 0, len, CharClass::Whitespace);
    assert(line@.subrange(0, len as int) =~= line@);
    let ghost t = line@.subrange(a as int, len as int);
    if len - a >= 2 && (line[a] == '-' || line[a] == '*' || line[a] == '+' || line[a] == '•')
        && line[a + 1] == ' ' {
        assert(t.skip(2) =~= line@.subrange(a + 2, len as int));
        let (c, d) = trim_bounds(line, a + 2, len, CharClass::Whitespace);
        return Some(slice_vec(line, c, d));
    }
    let mut k = a;
    while k < len && '0' <= line[k] && line[k] <= '9'
        invariant
            a <= k <= len == line@.len(),
            t == line@.subrange(a as int, len as int),
            leading_digits(t) == (k - a) + leading_digits(line@.subrange(k as int, len as int)),
        decreases len - k,
    {
        assert(line@.subrange(k as int, len as int).drop_first() =~= line@.subrange(k + 1, len as int));
        k = k + 1;
    }
    let n = k - a;
    if n == 0 {
        return None;
    }
    if k < len && (line[k] == '.' || line[k] == ')') {
        assert(t.skip(n as int + 1) =~= line@.subrange(k + 1, len as int));
        let b = trim_start_index(line, k + 1, len, CharClass::Whitespace);
        if b < len {
            return Some(slice_vec(line, b, len));
        }
        return None;
    }
    None
}

/// `normalize_summary_heading`.
pub open spec fn normalize_heading(h: Seq<char>) -> Seq<char> {
    collapse(trim(trim_end_cls(trim_cls(h, CharClass::HeadingQuote), CharClass::Colon)))
}

pub fn normalize_summary_heading(h: &Vec<char>) -> (r: Vec<char>)
    ensures
        r@ == normalize_heading(h@),
{
    let a = trimmed(h, CharClass::HeadingQuote);
    let b = trim_end_index(&a, 0, a.len(), CharClass::Colon);
    assert(a@.subrange(0, a@.len() as int) =~= a@);
    let c = slice_vec(&a, 0, b);
    let d = trimmed(&c, CharClass::Whitespace);
    collapse_spaces(&d)
}

pub open spec fn first_colon(s: Seq<char>) -> int
    decreases s.len(),
{
    if s.len() == 0 {
        -1
    } else if s[0] == ':' {
        0
    } else {
        let r = first_colon(s.drop_first());
        if r < 0 {
            -1
        } else {
            r + 1
        }
    }
}

pub open spec fn label_char(c: char) -> bool {
    crate::text::alphanumeric(c) || is_ws(c) || c == '&' || c == '/' || c == '+' || c == '-'
        || c == '(' || c == ')' || c == '\''
}

pub open spec fn ends_sentence(s: Seq<char>) -> bool {
    s.len() > 0 && (s.last() == '.' || s.last() == '?' || s.last() == '!')
}

pub open spec fn stars() -> Seq<char> {
    seq!['*', '*']
}

/// `emphasize_summary_bullet`: `Label: detail` becomes `**Label:** detail` when the label
/// is a short plain phrase (at most 36 characters and 5 words, no closing punctuation, no
/// `**`, only letters, digits, spaces and `&/+-()'`) and the detail is not empty; any other
/// item is returned with its whitespace collapsed.
pub open spec fn emphasize(item: Seq<char>) -> Seq<char> {
    let n = collapse(item);
    if n.len() == 0 || starts_with(n, stars()) {
        n
    } else {
        let p = first_colon(n);
        if p < 0 {
            n
        } else {
            let label = collapse(n.take(p));
            let detail = trim(n.skip(p + 1));
            if detail.len() == 0 || label.len() == 0 || label.len() > 36 || words(label).len() > 5
                || ends_sentence(label) || contains(label, stars()) {
                n
            } else if !(forall|k: int| 0 <= k < label.len() ==> label_char(#[trigger] label[k])) {
                n
            } else {
                stars() + label + seq![':', '*', '*', ' '] + detail
            }
        }
    }
}

pub proof fn lemma_first_colon(s: Seq<char>)
    ensures
        first_colon(s) >= 0 ==> (first_colon(s) < s.len() && s[first_colon(s)] == ':'
            && forall|k: int| 0 <= k < first_colon(s) ==> s[k] != ':'),
        first_colon(s) < 0 ==> first_colon(s) == -1 && forall|k: int| 0 <= k < s.len() ==> s[k]
            != ':',
    decreases s.len(),
{
    if s.len() > 0 && s[0] != ':' {
        lemma_first_colon(s.drop_first());
        assert forall|k: int| 1 <= k < s.len() implies s[k] == s.drop_first()[k - 1] by {}
    }
}

pub fn all_label_chars(label: &Vec<char>) -> (r: bool)
    ensures
        r == (forall|k: int| 0 <= k < label@.len() ==> label_char(#[trigger] label@[k])),
{
    let mut k: usize = 0;
    while k < label.len()
        invariant
            k <= label@.len(),
            forall|j: int| 0 <= j < k ==> label_char(#[trigger] label@[j]),
        decreases label.len() - k,
    {
        let ch = label[k];
        if !(crate::text::char_is_alphanumeric(ch) || char_is_whitespace(ch) || ch == '&' || ch
            == '/' || ch == '+' || ch == '-' || ch == '(' || ch == ')' || ch == '\'') {
            assert(!label_char(label@[k as int]));
            return false;
        }
        k = k + 1;
    }
    true
}

pub fn emphasize_summary_bullet(item: &Vec<char>) -> (r: Vec<char>)
    ensures
        r@ == emphasize(item@),
{
    let n = collapse_spaces(item);
    if n.len() == 0 {
        return n;
    }
    if n.len() >= 2 && n[0] == '*' && n[1] == '*' {
        assert(n@.take(2) =~= stars());
        return n;
    }
    proof {
        if n@.len() >= 2 {
            assert(n@.take(2)[0] == n@[0] && n@.take(2)[1] == n@[1]);
        }
        assert(!starts_with(n@, stars()));
    }
    let mut p: usize = 0;
    while p < n.len() && n[p] != ':'
        invariant
            p <= n@.len(),
            forall|k: int| 0 <= k < p ==> n@[k] != ':',
        decreases n.len() - p,
    {
        p = p + 1;
    }
    proof {
        lemma_first_colon(n@);
    }
    if p == n.len() {
        assert(first_colon(n@) < 0);
        return n;
    }
    assert(first_colon(n@) == p);
    let label0 = slice_vec(&n, 0, p);
    let label = collapse_spaces(&label0);
    let (c, d) = trim_bounds(&n, p + 1, n.len(), CharClass::Whitespace);
    assert(n@.take(p as int) =~= label0@);
    assert(n@.skip(p + 1) =~= n@.subrange(p + 1, n@.len() as int));
    let detail = slice_vec(&n, c, d);
    let lw = split_words(&label);
    let star = vec!['*', '*'];
    assert(star@ =~= stars());
    if detail.len() == 0 || label.len() == 0 || label.len() > 36 || lw.len() > 5 || (label.len()
        > 0 && (label[label.len() - 1] == '.' || label[label.len() - 1] == '?' || label[label.len()
        - 1] == '!')) || contains_exec(&label, &star) {
        return n;
    }
    if !all_label_chars(&label) {
        return n;
    }
    let mut out = star;
    append_vec(&mut out, &label);
    let tail = vec![':', '*', '*', ' '];
    append_vec(&mut out, &tail);
    append_vec(&mut out, &detail);
    assert(out@ =~= stars() + label@ + seq![':', '*', '*', ' '] + detail@);
    out
}


/// `str::replace("\r\n", "\n")`.
pub open spec fn crlf_to_lf(s: Seq<char>) -> Seq<char>
    decreases s.len(),
{
    if s.len() >= 2 && s[0] == '\r' && s[1] == '\n' {
        seq!['\n'] + crlf_to_lf(s.skip(2))
    } else if s.len() > 0 {
        seq![s[0]] + crlf_to_lf(s.drop_first())
    } else {
        Seq::empty()
    }
}

pub fn crlf_to_lf_exec(s: &Vec<char>) -> (r: Vec<char>)
    ensures
        r@ == crlf_to_lf(s@),
{
    let mut out: Vec<char> = Vec::new();
    let mut i: usize = 0;
    let len = s.len();
    assert(s@.skip(0) =~= s@);
    assert(out@ + crlf_to_lf(s@) =~= crlf_to_lf(s@));
    while i < len
        invariant
            i <= len == s@.len(),
            out@ + crlf_to_lf(s@.skip(i as int)) == crlf_to_lf(s@),
        decreases len - i,
    {
        let ghost rest = s@.skip(i as int);
        if len - i >= 2 && s[i] == '\r' && s[i + 1] == '\n' {
            assert(rest.skip(2) =~= s@.skip(i + 2));
            assert(out@.push('\n') + crlf_to_lf(s@.skip(i + 2)) =~= out@ + crlf_to_lf(rest));
            out.push('\n');
            i = i + 2;
        } else {
            assert(rest.drop_first() =~= s@.skip(i + 1));
            assert(out@.push(s@[i as int]) + crlf_to_lf(s@.skip(i + 1)) =~= out@ + crlf_to_lf(rest));
            out.push(s[i]);
            i = i + 1;
        }
    }
    assert(s@.skip(len as int) =~= Seq::<char>::empty());
    assert(out@ + Seq::<char>::empty() =~= out@);
    out
}

pub open spec fn strip_cr(l: Seq<char>) -> Seq<char> {
    if l.len() > 0 && l.last() == '\r' {
        l.drop_last()
    } else {
        l
    }
}

/// Scanning state of `str::lines`: finished lines and the current one.
pub open spec fn lines_state(s: Seq<char>) -> (Seq<Seq<char>>, Seq<char>)
    decreases s.len(),
{
    if s.len() == 0 {
        (Seq::empty(), Seq::empty())
    } else {
        let (done, cur) = lines_state(s.drop_last());
        if s.last() == '\n' {
            (done.push(strip_cr(cur)), Seq::empty())
        } else {
            (done, cur.push(s.last()))
        }
    }
}

/// `str::lines`: the text cut at each `\n` (a `\r` before it dropped), without an empty
/// last line.
pub open spec fn lines(s: Seq<char>) -> Seq<Seq<char>> {
    let (done, cur) = lines_state(s);
    if cur.len() > 0 {
        done.push(cur)
    } else {
        done
    }
}

pub fn split_lines(s: &Vec<char>) -> (r: Vec<Vec<char>>)
    ensures
        views(r@) == lines(s@),
{
    let mut done: Vec<Vec<char>> = Vec::new();
    let mut cur: Vec<char> = Vec::new();
    for i in 0..s.len()
        invariant
            views(done@) == lines_state(s@.take(i as int)).0,
            cur@ == lines_state(s@.take(i as int)).1,
    {
        assert(s@.take(i + 1).drop_last() =~= s@.take(i as int));
        if s[i] == '\n' {
            if cur.len() > 0 && cur[cur.len() - 1] == '\r' {
                cur.pop();
            }
            proof {
                lemma_views_push(done@, cur);
            }
            done.push(cur);
            cur = Vec::new();
        } else {
            cur.push(s[i]);
        }
    }
    assert(s@.take(s.len() as int) =~= s@);
    if cur.len() > 0 {
        proof {
            lemma_views_push(done@, cur);
        }
        done.push(cur);
    }
    done
}

/// The state of `polish_summary_markdown` after a line: the lines written so far and
/// whether the last one written is blank (it starts out so).
pub open spec fn polish_step(st: (Seq<Seq<char>>, bool), raw: Seq<char>) -> (Seq<Seq<char>>, bool) {
    let (out, prev_blank) = st;
    let line = trim(raw);
    if line.len() == 0 {
        if !prev_blank && out.len() > 0 {
            (out.push(Seq::empty()), true)
        } else {
            (out, true)
        }
    } else if heading_text(line) is Some {
        let h = normalize_heading(heading_text(line)->0);
        if h.len() == 0 {
            (out, prev_blank)
        } else {
            let out1 = if out.len() > 0 && !prev_blank {
                out.push(Seq::empty())
            } else {
                out
            };
            (out1.push(seq!['#', ' '] + h).push(Seq::empty()), true)
        }
    } else if list_item_body(line) is Some {
        (out.push(seq!['-', ' '] + emphasize(list_item_body(line)->0)), false)
    } else {
        (out.push(collapse(line)), false)
    }
}

pub open spec fn polish_fold(ls: Seq<Seq<char>>) -> (Seq<Seq<char>>, bool)
    decreases ls.len(),
{
    if ls.len() == 0 {
        (Seq::empty(), true)
    } else {
        polish_step(polish_fold(ls.drop_last()), ls.last())
    }
}

pub open spec fn drop_trailing_blank(ls: Seq<Seq<char>>) -> Seq<Seq<char>>
    decreases ls.len(),
{
    if ls.len() > 0 && ls.last().len() == 0 {
        drop_trailing_blank(ls.drop_last())
    } else {
        ls
    }
}

pub open spec fn newline() -> Seq<char> {
    seq!['\n']
}

/// `polish_summary_markdown`: line by line, headings become `# Title` followed by a blank
/// line, list items become `- ` bullets with titled labels emphasized, other lines have
/// their whitespace collapsed; runs of blank lines become one, and there are no blank lines
/// at the start or the end.
pub open spec fn polish(markdown: Seq<char>) -> Seq<char> {
    join(drop_trailing_blank(polish_fold(lines(crlf_to_lf(markdown))).0), newline())
}

pub fn prefixed(prefix: &Vec<char>, body: &Vec<char>) -> (r: Vec<char>)
    ensures
        r@ == prefix@ + body@,
{
    let mut out = clone_chars(prefix);
    append_vec(&mut out, body);
    out
}

pub fn polish_summary_markdown_chars(markdown: &Vec<char>) -> (r: Vec<char>)
    ensures
        r@ == polish(markdown@),
{
    let normalized = crlf_to_lf_exec(markdown);
    let ls = split_lines(&normalized);
    let ghost lv = views(ls@);
    let mut polished: Vec<Vec<char>> = Vec::new();
    let mut previous_blank = true;
    for i in 0..ls.len()
        invariant
            lv == views(ls@),
            (views(polished@), previous_blank) == polish_fold(lv.take(i as int)),
    {
        assert(lv.take(i + 1).drop_last() =~= lv.take(i as int));
        assert(lv.take(i + 1).last() == lv[i as int]);
        let line = trimmed(&ls[i], CharClass::Whitespace);
        if line.len() == 0 {
            if !previous_blank && polished.len() > 0 {
                let blank: Vec<char> = Vec::new();
                proof {
                    lemma_views_push(polished@, blank);
                }
                polished.push(blank);
            }
            previous_blank = true;
        } else {
            let h = heading_text_exec(&line);
            if let Some(heading) = h {
                let hn = normalize_summary_heading(&heading);
                if hn.len() > 0 {
                    if polished.len() > 0 && !previous_blank {
                        let blank: Vec<char> = Vec::new();
                        proof {
                            lemma_views_push(polished@, blank);
                        }
                        polished.push(blank);
                    }
                    let hp = vec!['#', ' '];
                    let hl = prefixed(&hp, &hn);
                    proof {
                        lemma_views_push(polished@, hl);
                    }
                    polished.push(hl);
                    let blank: Vec<char> = Vec::new();
                    proof {
                        lemma_views_push(polished@, blank);
                    }
                    polished.push(blank);
                    previous_blank = true;
                }
            } else {
                let item = list_item_body_exec(&line);
                if let Some(body) = item {
                    let e = emphasize_summary_bullet(&body);
                    let bp = vec!['-', ' '];
                    let bl = prefixed(&bp, &e);
                    proof {
                        lemma_views_push(polished@, bl);
                    }
                    polished.push(bl);
                } else {
                    let c = collapse_spaces(&line);
                    proof {
                        lemma_views_push(polished@, c);
                    }
                    polished.push(c);
                }
                previous_blank = false;
            }
        }
    }
    assert(lv.take(ls.len() as int) =~= lv);
    while polished.len() > 0 && polished[polished.len() - 1].len() == 0
        invariant
            drop_trailing_blank(views(polished@)) == drop_trailing_blank(
                polish_fold(lv).0,
            ),
        decreases polished.len(),
    {
        let ghost before = polished@;
        polished.pop();
        assert(views(polished@) =~= views(before).drop_last());
    }
    let nl = vec!['\n'];
    assert(nl@ =~= newline());
    join_vecs(&polished, &nl)
}


proof fn lemma_trim_end_last(s: Seq<char>, cls: CharClass)
    ensures
        trim_end_cls(s, cls).len() > 0 ==> !in_class(cls, trim_end_cls(s, cls).last()),
    decreases s.len(),
{
    if s.len() > 0 && in_class(cls, s.last()) {
        lemma_trim_end_last(s.drop_last(), cls);
    }
}

proof fn lemma_words_state_nonempty(s: Seq<char>, k: int)
    requires
        0 <= k < s.len(),
        !is_ws(s[k]),
    ensures
        crate::text::words_state(s).0.len() > 0 || crate::text::words_state(s).1.len() > 0,
    decreases s.len(),
{
    if k < s.len() - 1 {
        lemma_words_state_nonempty(s.drop_last(), k);
    }
}

/// A line that is not blank once trimmed keeps some text when its spaces are collapsed.
proof fn lemma_collapse_nonblank(line: Seq<char>)
    requires
        trim(line).len() > 0,
    ensures
        collapse(trim(line)).len() > 0,
{
    let t = trim(line);
    lemma_trim_end_last(trim_start_cls(line, CharClass::Whitespace), CharClass::Whitespace);
    lemma_words_state_nonempty(t, t.len() - 1);
    crate::text::lemma_words_shape(t);
    let ws = words(t);
    assert(ws.len() > 0);
    if ws.len() == 1 {
        assert(crate::text::is_word(ws[0]));
    } else {
        assert(join(ws, crate::text::space()) == join(ws.drop_last(), crate::text::space())
            + crate::text::space() + ws.last());
    }
}

/// What a polished summary's lines keep at every step: no two blank lines in a row, a first
/// line that is not blank, and the flag that says whether the last line written is blank.
pub open spec fn polished_shape(out: Seq<Seq<char>>, prev_blank: bool) -> bool {
    &&& forall|k: int| 0 <= k < out.len() - 1 ==> !(#[trigger] out[k].len() == 0 && out[k + 1].len()
        == 0)
    &&& out.len() > 0 ==> out[0].len() > 0
    &&& prev_blank == (out.len() == 0 || out.last().len() == 0)
}

proof fn lemma_polish_fold_shape(ls: Seq<Seq<char>>)
    ensures
        polished_shape(polish_fold(ls).0, polish_fold(ls).1),
    decreases ls.len(),
{
    if ls.len() > 0 {
        lemma_polish_fold_shape(ls.drop_last());
        let (out, prev) = polish_fold(ls.drop_last());
        let raw = ls.last();
        let line = trim(raw);
        if line.len() > 0 && !(heading_text(line) is Some) && !(list_item_body(line) is Some) {
            lemma_collapse_nonblank(raw);
        }
        let (out2, prev2) = polish_step((out, prev), raw);
        assert forall|k: int| 0 <= k < out2.len() - 1 implies !(#[trigger] out2[k].len() == 0
            && out2[k + 1].len() == 0) by {
            if k < out.len() - 1 {
                assert(out2[k] == out[k] && out2[k + 1] == out[k + 1]);
            }
        }
    }
}

proof fn lemma_drop_trailing_blank(ls: Seq<Seq<char>>)
    ensures
        drop_trailing_blank(ls).len() <= ls.len(),
        drop_trailing_blank(ls) == ls.take(drop_trailing_blank(ls).len() as int),
        drop_trailing_blank(ls).len() > 0 ==> drop_trailing_blank(ls).last().len() > 0,
    decreases ls.len(),
{
    if ls.len() > 0 && ls.last().len() == 0 {
        lemma_drop_trailing_blank(ls.drop_last());
        let d = drop_trailing_blank(ls.drop_last());
        assert(ls.drop_last().take(d.len() as int) =~= ls.take(d.len() as int));
    } else {
        assert(ls.take(ls.len() as int) =~= ls);
    }
}

/// A polished summary is its lines joined by line breaks, and those lines hold no blank line
/// at the start or the end and no two blank lines in a row.
pub proof fn lemma_polish_lines(markdown: Seq<char>)
    ensures
        ({
            let ls = drop_trailing_blank(polish_fold(lines(crlf_to_lf(markdown))).0);
            &&& polish(markdown) == join(ls, newline())
            &&& ls.len() > 0 ==> ls[0].len() > 0 && ls.last().len() > 0
            &&& forall|k: int| 0 <= k < ls.len() - 1 ==> !(#[trigger] ls[k].len() == 0 && ls[k
                + 1].len() == 0)
        }),
{
    let full = polish_fold(lines(crlf_to_lf(markdown))).0;
    lemma_polish_fold_shape(lines(crlf_to_lf(markdown)));
    lemma_drop_trailing_blank(full);
    let ls = drop_trailing_blank(full);
    assert forall|k: int| 0 <= k < ls.len() - 1 implies !(#[trigger] ls[k].len() == 0 && ls[k
        + 1].len() == 0) by {
        assert(ls[k] == full[k] && ls[k + 1] == full[k + 1]);
    }
    if ls.len() > 0 {
        assert(ls[0] == full[0]);
    }
}


proof fn lemma_leading_digits_run(t: Seq<char>, n: int)
    requires
        0 <= n < t.len(),
        forall|j: int| 0 <= j < n ==> '0' <= #[trigger] t[j] <= '9',
        !('0' <= t[n] <= '9'),
    ensures
        leading_digits(t) == n,
    decreases n,
{
    if n > 0 {
        let rest = t.drop_first();
        assert forall|j: int| 0 <= j < n - 1 implies '0' <= #[trigger] rest[j] <= '9' by {
            assert(rest[j] == t[j + 1]);
        }
        assert(rest[n - 1] == t[n]);
        lemma_leading_digits_run(rest, n - 1);
        assert('0' <= t[0] <= '9');
    }
}

/// A numbered line is a list item: where the line, after its leading whitespace, is one or
/// more ASCII digits, then `.` or `)`, then a body that is not blank, the item's body is
/// that rest with its leading whitespace removed.
pub proof fn lemma_numbered_list_item(line: Seq<char>, n: int)
    requires
        ({
            let t = trim_start_ws(line);
            &&& 1 <= n < t.len()
            &&& forall|j: int| 0 <= j < n ==> '0' <= #[trigger] t[j] <= '9'
            &&& (t[n] == '.' || t[n] == ')')
            &&& trim_start_ws(t.skip(n + 1)).len() > 0
        }),
    ensures
        list_item_body(line) == Some(trim_start_ws(trim_start_ws(line).skip(n + 1))),
{
    let t = trim_start_ws(line);
    lemma_leading_digits_run(t, n);
    assert('0' <= t[0] <= '9');
    assert(!bullet_prefix(t));
}

} // verus!
