//! Character-level text primitives over `Seq<char>`, with the executable
//! versions that the transcript and markdown logic is built from.
use vstd::prelude::*;

verus! {

/// Unicode `White_Space` code points, as used by `char::is_whitespace`.
pub open spec fn is_ws(c: char) -> bool {
    let u = c as u32;
    ||| 0x09 <= u <= 0x0d
    ||| u == 0x20
    ||| u == 0x85
    ||| u == 0xa0
    ||| u == 0x1680
    ||| 0x2000 <= u <= 0x200a
    ||| u == 0x2028
    ||| u == 0x2029
    ||| u == 0x202f
    ||| u == 0x205f
    ||| u == 0x3000
}

/// `char::is_whitespace`.
pub fn char_is_whitespace(c: char) -> (r: bool)
    ensures
        r == is_ws(c),
{
    let u = c as u32;
    (0x09 <= u && u <= 0x0d) || u == 0x20 || u == 0x85 || u == 0xa0 || u == 0x1680 || (0x2000
        <= u && u <= 0x200a) || u == 0x2028 || u == 0x2029 || u == 0x202f || u == 0x205f || u
        == 0x3000
}

/// What `char::is_alphanumeric` answers (Unicode `Alphabetic` or `Numeric`).
pub uninterp spec fn alphanumeric(c: char) -> bool;

pub open spec fn ascii_alphanumeric(c: char) -> bool {
    ||| 'a' <= c <= 'z'
    ||| 'A' <= c <= 'Z'
    ||| '0' <= c <= '9'
}

/// Calls `char::is_alphanumeric`. The contract names the Unicode answer and states it for
/// ASCII, where it is the letters and the decimal digits; beyond ASCII nothing is stated.
#[verifier::external_body]
pub(crate) fn char_is_alphanumeric(c: char) -> (r: bool)
    ensures
        r == alphanumeric(c),
        (c as u32) < 128 ==> (r == ascii_alphanumeric(c)),
{
    c.is_alphanumeric()
}

/// Calls `String::push`: the string gains the character at its end.
#[verifier::external_body]
pub(crate) fn string_push(s: &mut String, c: char)
    ensures
        final(s)@ == old(s)@.push(c),
{
    s.push(c);
}

pub open spec fn lower_char(c: char) -> char {
    if 'A' <= c <= 'Z' {
        ((c as u32) + 32) as char
    } else {
        c
    }
}

/// `char::to_ascii_lowercase`.
pub fn to_lower_char(c: char) -> (r: char)
    ensures
        r == lower_char(c),
{
    if 'A' <= c && c <= 'Z' {
        let b = c as u8;
        (b + 32) as char
    } else {
        c
    }
}

/// `str::to_ascii_lowercase` on a character sequence.
pub open spec fn lower(s: Seq<char>) -> Seq<char> {
    s.map_values(|c: char| lower_char(c))
}

pub fn to_lower(s: &Vec<char>) -> (r: Vec<char>)
    ensures
        r@ == lower(s@),
{
    let mut out: Vec<char> = Vec::new();
    for i in 0..s.len()
        invariant
            out@ == lower(s@.take(i as int)),
    {
        let c = to_lower_char(s[i]);
        out.push(c);
        assert(lower(s@.take(i + 1)) =~= lower(s@.take(i as int)).push(c));
    }
    assert(s@.take(s.len() as int) =~= s@);
    out
}

pub fn to_chars(s: &str) -> (r: Vec<char>)
    ensures
        r@ == s@,
{
    let mut out: Vec<char> = Vec::new();
    for c in it: s.chars()
        invariant
            out@ == it.seq().take(it.index() as int),
    {
        out.push(c);
    }
    out
}

pub fn from_chars(s: &Vec<char>) -> (r: String)
    ensures
        r@ == s@,
{
    let mut out = String::new();
    for i in 0..s.len()
        invariant
            out@ == s@.take(i as int),
    {
        string_push(&mut out, s[i]);
        assert(s@.take(i + 1) =~= s@.take(i as int).push(s@[i as int]));
    }
    assert(s@.take(s.len() as int) =~= s@);
    out
}

/// The character classes that the trimming operations strip.
#[derive(Clone, Copy, PartialEq, Eq, Structural)]
pub enum CharClass {
    /// `char::is_whitespace`.
    Whitespace,
    /// Neither alphanumeric nor an apostrophe: what transcript tokens shed.
    TokenEdge,
    /// `*`, backtick, `"` and `'`: what headings shed.
    HeadingQuote,
    /// `:`.
    Colon,
    /// `#`.
    Hash,
    /// `-`, `*` and `+`: list markers.
    ListMark,
}

pub open spec fn in_class(cls: CharClass, c: char) -> bool {
    match cls {
        CharClass::Whitespace => is_ws(c),
        CharClass::TokenEdge => !alphanumeric(c) && c != '\'',
        CharClass::HeadingQuote => c == '*' || c == '`' || c == '"' || c == '\'',
        CharClass::Colon => c == ':',
        CharClass::Hash => c == '#',
        CharClass::ListMark => c == '-' || c == '*' || c == '+',
    }
}

pub fn char_in_class(cls: CharClass, c: char) -> (r: bool)
    ensures
        r == in_class(cls, c),
{
    match cls {
        CharClass::Whitespace => char_is_whitespace(c),
        CharClass::TokenEdge => !char_is_alphanumeric(c) && c != '\'',
        CharClass::HeadingQuote => c == '*' || c == '`' || c == '"' || c == '\'',
        CharClass::Colon => c == ':',
        CharClass::Hash => c == '#',
        CharClass::ListMark => c == '-' || c == '*' || c == '+',
    }
}

/// Drops the leading characters of the class (`trim_start_matches`).
pub open spec fn trim_start_cls(s: Seq<char>, cls: CharClass) -> Seq<char>
    decreases s.len(),
{
    if s.len() > 0 && in_class(cls, s[0]) {
        trim_start_cls(s.drop_first(), cls)
    } else {
        s
    }
}

/// Drops the trailing characters of the class (`trim_end_matches`).
pub open spec fn trim_end_cls(s: Seq<char>, cls: CharClass) -> Seq<char>
    decreases s.len(),
{
    if s.len() > 0 && in_class(cls, s.last()) {
        trim_end_cls(s.drop_last(), cls)
    } else {
        s
    }
}

/// Drops the characters of the class at both ends (`trim_matches`).
pub open spec fn trim_cls(s: Seq<char>, cls: CharClass) -> Seq<char> {
    trim_end_cls(trim_start_cls(s, cls), cls)
}

/// `str::trim`.
pub open spec fn trim(s: Seq<char>) -> Seq<char> {
    trim_cls(s, CharClass::Whitespace)
}

/// Index where `trim_start_cls` of `s[lo..hi]` begins.
pub fn trim_start_index(s: &Vec<char>, lo: usize, hi: usize, cls: CharClass) -> (a: usize)
    requires
        lo <= hi <= s@.len(),
    ensures
        lo <= a <= hi,
        s@.subrange(a as int, hi as int) == trim_start_cls(s@.subrange(lo as int, hi as int), cls),
{
    let mut i = lo;
    while i < hi && char_in_class(cls, s[i])
        invariant
            lo <= i <= hi <= s@.len(),
            trim_start_cls(s@.subrange(lo as int, hi as int), cls) == trim_start_cls(
                s@.subrange(i as int, hi as int),
                cls,
            ),
        decreases hi - i,
    {
        assert(s@.subrange(i as int, hi as int).drop_first() =~= s@.subrange(i + 1, hi as int));
        i = i + 1;
    }
    i
}

/// Index where `trim_end_cls` of `s[lo..hi]` ends.
pub fn trim_end_index(s: &Vec<char>, lo: usize, hi: usize, cls: CharClass) -> (b: usize)
    requires
        lo <= hi <= s@.len(),
    ensures
        lo <= b <= hi,
        s@.subrange(lo as int, b as int) == trim_end_cls(s@.subrange(lo as int, hi as int), cls),
{
    let mut j = hi;
    while j > lo && char_in_class(cls, s[j - 1])
        invariant
            lo <= j <= hi <= s@.len(),
            trim_end_cls(s@.subrange(lo as int, hi as int), cls) == trim_end_cls(
                s@.subrange(lo as int, j as int),
                cls,
            ),
        decreases j - lo,
    {
        assert(s@.subrange(lo as int, j as int).drop_last() =~= s@.subrange(lo as int, j - 1));
        j = j - 1;
    }
    j
}

/// Bounds of `trim_cls` applied to `s[lo..hi]`.
pub fn trim_bounds(s: &Vec<char>, lo: usize, hi: usize, cls: CharClass) -> (r: (usize, usize))
    requires
        lo <= hi <= s@.len(),
    ensures
        lo <= r.0 <= r.1 <= hi,
        s@.subrange(r.0 as int, r.1 as int) == trim_cls(s@.subrange(lo as int, hi as int), cls),
{
    let a = trim_start_index(s, lo, hi, cls);
    let b = trim_end_index(s, a, hi, cls);
    (a, b)
}

pub fn slice_vec(s: &Vec<char>, lo: usize, hi: usize) -> (r: Vec<char>)
    requires
        lo <= hi <= s@.len(),
    ensures
        r@ == s@.subrange(lo as int, hi as int),
{
    let mut out: Vec<char> = Vec::new();
    let mut i = lo;
    while i < hi
        invariant
            lo <= i <= hi <= s@.len(),
            out@ == s@.subrange(lo as int, i as int),
        decreases hi - i,
    {
        out.push(s[i]);
        assert(s@.subrange(lo as int, i + 1) =~= s@.subrange(lo as int, i as int).push(s@[i as int]));
        i = i + 1;
    }
    out
}

/// `trim_matches` with the class, as a new vector.
pub fn trimmed(s: &Vec<char>, cls: CharClass) -> (r: Vec<char>)
    ensures
        r@ == trim_cls(s@, cls),
{
    let (a, b) = trim_bounds(s, 0, s.len(), cls);
    assert(s@.subrange(0, s.len() as int) =~= s@);
    slice_vec(s, a, b)
}


/// Scanning state of `split_whitespace` after reading `s`: the finished words and the word
/// being read.
pub open spec fn words_state(s: Seq<char>) -> (Seq<Seq<char>>, Seq<char>)
    decreases s.len(),
{
    if s.len() == 0 {
        (Seq::empty(), Seq::empty())
    } else {
        let (done, cur) = words_state(s.drop_last());
        if is_ws(s.last()) {
            if cur.len() > 0 {
                (done.push(cur), Seq::empty())
            } else {
                (done, cur)
            }
        } else {
            (done, cur.push(s.last()))
        }
    }
}

/// `str::split_whitespace`: the maximal runs of non-whitespace characters, in order.
pub open spec fn words(s: Seq<char>) -> Seq<Seq<char>> {
    let (done, cur) = words_state(s);
    if cur.len() > 0 {
        done.push(cur)
    } else {
        done
    }
}

pub open spec fn no_ws(w: Seq<char>) -> bool {
    forall|k: int| 0 <= k < w.len() ==> !is_ws(#[trigger] w[k])
}

pub open spec fn is_word(w: Seq<char>) -> bool {
    w.len() > 0 && no_ws(w)
}

pub proof fn lemma_words_state_shape(s: Seq<char>)
    ensures
        forall|k: int| 0 <= k < words_state(s).0.len() ==> is_word(#[trigger] words_state(s).0[k]),
        no_ws(words_state(s).1),
    decreases s.len(),
{
    if s.len() > 0 {
        lemma_words_state_shape(s.drop_last());
    }
}

/// Every word is non-empty and holds no whitespace.
pub proof fn lemma_words_shape(s: Seq<char>)
    ensures
        forall|k: int| 0 <= k < words(s).len() ==> is_word(#[trigger] words(s)[k]),
{
    lemma_words_state_shape(s);
}

pub fn split_words(s: &Vec<char>) -> (r: Vec<Vec<char>>)
    ensures
        r@.len() == words(s@).len(),
        forall|k: int| 0 <= k < r@.len() ==> (#[trigger] r@[k])@ == words(s@)[k],
{
    let mut done: Vec<Vec<char>> = Vec::new();
    let mut cur: Vec<char> = Vec::new();
    for i in 0..s.len()
        invariant
            done@.len() == words_state(s@.take(i as int)).0.len(),
            forall|k: int| 0 <= k < done@.len() ==> (#[trigger] done@[k])@ == words_state(s@.take(i as int)).0[k],
            cur@ == words_state(s@.take(i as int)).1,
    {
        let c = s[i];
        assert(s@.take(i + 1).drop_last() =~= s@.take(i as int));
        if char_is_whitespace(c) {
            if cur.len() > 0 {
                done.push(cur);
                cur = Vec::new();
            }
        } else {
            cur.push(c);
        }
    }
    assert(s@.take(s.len() as int) =~= s@);
    if cur.len() > 0 {
        done.push(cur);
    }
    done
}

/// `join` of the parts with the separator.
pub open spec fn join(parts: Seq<Seq<char>>, sep: Seq<char>) -> Seq<char>
    decreases parts.len(),
{
    if parts.len() == 0 {
        Seq::empty()
    } else if parts.len() == 1 {
        parts[0]
    } else {
        join(parts.drop_last(), sep) + sep + parts.last()
    }
}

pub fn join_vecs(parts: &Vec<Vec<char>>, sep: &Vec<char>) -> (r: Vec<char>)
    ensures
        r@ == join(parts@.map_values(|p: Vec<char>| p@), sep@),
{
    let ghost views = parts@.map_values(|p: Vec<char>| p@);
    let mut out: Vec<char> = Vec::new();
    for i in 0..parts.len()
        invariant
            views == parts@.map_values(|p: Vec<char>| p@),
            out@ == join(views.take(i as int), sep@),
    {
        assert(views.take(i + 1).drop_last() =~= views.take(i as int));
        if i > 0 {
            append_vec(&mut out, sep);
        }
        append_vec(&mut out, &parts[i]);
        if i == 0 {
            assert(out@ =~= views.take(1)[0]);
        }
    }
    assert(views.take(parts.len() as int) =~= views);
    out
}

pub fn append_vec(out: &mut Vec<char>, more: &Vec<char>)
    ensures
        final(out)@ == old(out)@ + more@,
{
    for i in 0..more.len()
        invariant
            out@ == old(out)@ + more@.take(i as int),
    {
        out.push(more[i]);
        assert(more@.take(i + 1) =~= more@.take(i as int).push(more@[i as int]));
    }
    assert(more@.take(more.len() as int) =~= more@);
}

pub open spec fn space() -> Seq<char> {
    seq![' ']
}

/// `split_whitespace().collect::<Vec<_>>().join(" ")`.
pub open spec fn collapse(s: Seq<char>) -> Seq<char> {
    join(words(s), space())
}

/// Reading a run of non-whitespace characters extends the word being read.
proof fn lemma_words_state_append_word(s: Seq<char>, w: Seq<char>)
    requires
        no_ws(w),
    ensures
        words_state(s + w) == (words_state(s).0, words_state(s).1 + w),
    decreases w.len(),
{
    if w.len() == 0 {
        assert(s + w =~= s);
        assert(words_state(s).1 + w =~= words_state(s).1);
    } else {
        let w0 = w.drop_last();
        lemma_words_state_append_word(s, w0);
        assert((s + w).drop_last() =~= s + w0);
        assert((s + w).last() == w.last());
        assert(words_state(s).1 + w0 + seq![w.last()] =~= words_state(s).1 + w);
        assert((words_state(s).1 + w0).push(w.last()) =~= words_state(s).1 + w);
    }
}

/// Splitting words joined by single spaces gives the words back.
pub proof fn lemma_words_of_join(ws: Seq<Seq<char>>)
    requires
        forall|k: int| 0 <= k < ws.len() ==> is_word(#[trigger] ws[k]),
    ensures
        words(join(ws, space())) == ws,
    decreases ws.len(),
{
    if ws.len() == 0 {
        assert(words_state(Seq::<char>::empty()) == (Seq::<Seq<char>>::empty(), Seq::<char>::empty()));
        assert(words(join(ws, space())) =~= ws);
    } else if ws.len() == 1 {
        lemma_words_state_append_word(Seq::empty(), ws[0]);
        assert(Seq::<char>::empty() + ws[0] =~= ws[0]);
        assert(Seq::<char>::empty() + ws[0] =~= ws[0]);
        assert(words(ws[0]) =~= seq![ws[0]]);
        assert(ws =~= seq![ws[0]]);
    } else {
        let front = ws.drop_last();
        assert forall|k: int| 0 <= k < front.len() implies is_word(#[trigger] front[k]) by {
            assert(front[k] == ws[k]);
        }
        lemma_words_of_join(front);
        let j = join(front, space());
        let js = j + space();
        assert(js.drop_last() =~= j);
        assert(js.last() == ' ');
        assert(is_ws(' '));
        assert(words_state(js) == (words(j), Seq::<char>::empty()));
        lemma_words_state_append_word(js, ws.last());
        assert(join(ws, space()) == js + ws.last());
        assert(ws.last() == ws[ws.len() - 1]);
        assert(Seq::<char>::empty() + ws.last() =~= ws.last());
        assert(words(join(ws, space())) =~= front.push(ws.last()));
        assert(front.push(ws.last()) =~= ws);
    }
}

/// Collapsing the spaces keeps the words.
pub proof fn lemma_words_of_collapse(s: Seq<char>)
    ensures
        words(collapse(s)) == words(s),
{
    lemma_words_shape(s);
    lemma_words_of_join(words(s));
}

pub fn collapse_spaces(s: &Vec<char>) -> (r: Vec<char>)
    ensures
        r@ == collapse(s@),
{
    let ws = split_words(s);
    let sep = vec![' '];
    let r = join_vecs(&ws, &sep);
    assert(ws@.map_values(|p: Vec<char>| p@) =~= words(s@));
    assert(sep@ =~= space());
    r
}

pub open spec fn starts_with(s: Seq<char>, p: Seq<char>) -> bool {
    p.len() <= s.len() && s.take(p.len() as int) == p
}

pub open spec fn ends_with(s: Seq<char>, p: Seq<char>) -> bool {
    p.len() <= s.len() && s.skip(s.len() - p.len()) == p
}

pub open spec fn occurs_at(s: Seq<char>, p: Seq<char>, i: int) -> bool {
    0 <= i && i + p.len() <= s.len() && s.subrange(i, i + p.len()) == p
}

/// `str::contains` with a string pattern.
pub open spec fn contains(s: Seq<char>, p: Seq<char>) -> bool {
    exists|i: int| occurs_at(s, p, i)
}

pub fn occurs_at_exec(s: &Vec<char>, p: &Vec<char>, i: usize) -> (r: bool)
    ensures
        r == occurs_at(s@, p@, i as int),
{
    if i > s.len() || p.len() > s.len() - i {
        return false;
    }
    let mut k: usize = 0;
    while k < p.len()
        invariant
            i + p@.len() <= s@.len(),
            k <= p@.len(),
            s@.len() <= usize::MAX,
            forall|m: int| 0 <= m < k ==> s@[i + m] == p@[m],
        decreases p.len() - k,
    {
        if s[i + k] != p[k] {
            assert(s@.subrange(i as int, i + p@.len())[k as int] != p@[k as int]);
            return false;
        }
        k = k + 1;
    }
    assert(s@.subrange(i as int, i + p@.len()) =~= p@);
    true
}

pub fn starts_with_exec(s: &Vec<char>, p: &Vec<char>) -> (r: bool)
    ensures
        r == starts_with(s@, p@),
{
    let r = occurs_at_exec(s, p, 0);
    proof {
        if p@.len() <= s@.len() {
            assert(s@.subrange(0, p@.len() as int) =~= s@.take(p@.len() as int));
        }
    }
    r
}

pub fn ends_with_exec(s: &Vec<char>, p: &Vec<char>) -> (r: bool)
    ensures
        r == ends_with(s@, p@),
{
    if p.len() > s.len() {
        return false;
    }
    let r = occurs_at_exec(s, p, s.len() - p.len());
    assert(s@.subrange(s@.len() - p@.len(), s@.len() as int) =~= s@.skip(s@.len() - p@.len()));
    r
}

pub fn contains_exec(s: &Vec<char>, p: &Vec<char>) -> (r: bool)
    ensures
        r == contains(s@, p@),
{
    if p.len() > s.len() {
        return false;
    }
    let mut i: usize = 0;
    while i <= s.len() - p.len()
        invariant
            p@.len() <= s@.len(),
            i <= s@.len() - p@.len() + 1,
            forall|m: int| 0 <= m < i ==> !occurs_at(s@, p@, m),
        decreases s@.len() - p@.len() + 1 - i,
    {
        if occurs_at_exec(s, p, i) {
            return true;
        }
        if i == s.len() - p.len() {
            return false;
        }
        i = i + 1;
    }
    false
}


/// The views of a sequence of character vectors.
pub open spec fn views(v: Seq<Vec<char>>) -> Seq<Seq<char>> {
    v.map_values(|x: Vec<char>| x@)
}

pub proof fn lemma_views_push(v: Seq<Vec<char>>, x: Vec<char>)
    ensures
        views(v.push(x)) == views(v).push(x@),
{
    assert(views(v.push(x)) =~= views(v).push(x@));
}

pub fn chars_eq(a: &Vec<char>, b: &Vec<char>) -> (r: bool)
    ensures
        r == (a@ == b@),
{
    if a.len() != b.len() {
        return false;
    }
    let mut i: usize = 0;
    while i < a.len()
        invariant
            a@.len() == b@.len(),
            i <= a@.len(),
            forall|k: int| 0 <= k < i ==> a@[k] == b@[k],
        decreases a.len() - i,
    {
        if a[i] != b[i] {
            return false;
        }
        i = i + 1;
    }
    assert(a@ =~= b@);
    true
}

pub fn clone_chars(a: &Vec<char>) -> (r: Vec<char>)
    ensures
        r@ == a@,
{
    slice_vec(a, 0, a.len())
}

/// Number of bytes that a character takes in UTF-8.
pub open spec fn utf8_width(c: char) -> nat {
    let u = c as u32;
    if u < 0x80 {
        1
    } else if u < 0x800 {
        2
    } else if u < 0x10000 {
        3
    } else {
        4
    }
}

/// `str::len`: the length in UTF-8 bytes.
pub open spec fn utf8_len(s: Seq<char>) -> nat
    decreases s.len(),
{
    if s.len() == 0 {
        0
    } else {
        utf8_len(s.drop_last()) + utf8_width(s.last())
    }
}

pub proof fn lemma_utf8_len_bound(s: Seq<char>)
    ensures
        utf8_len(s) <= 4 * s.len(),
        utf8_len(s) >= s.len(),
    decreases s.len(),
{
    if s.len() > 0 {
        lemma_utf8_len_bound(s.drop_last());
    }
}

pub fn utf8_len_exec(s: &Vec<char>) -> (r: usize)
    requires
        4 * s@.len() <= usize::MAX,
    ensures
        r == utf8_len(s@),
{
    let mut n: usize = 0;
    for i in 0..s.len()
        invariant
            4 * s@.len() <= usize::MAX,
            n == utf8_len(s@.take(i as int)),
    {
        proof {
            assert(s@.take(i + 1).drop_last() =~= s@.take(i as int));
            lemma_utf8_len_bound(s@.take(i as int));
        }
        let u = s[i] as u32;
        let w: usize = if u < 0x80 {
            1
        } else if u < 0x800 {
            2
        } else if u < 0x10000 {
            3
        } else {
            4
        };
        n = n + w;
    }
    assert(s@.take(s.len() as int) =~= s@);
    n
}


/// `==` on string slices.
/// The three texts one after the other.
pub fn concat3(a: &str, b: &str, c: &str) -> (r: String)
    ensures
        r@ == a@ + b@ + c@,
{
    let mut out = to_chars(a);
    append_vec(&mut out, &to_chars(b));
    append_vec(&mut out, &to_chars(c));
    from_chars(&out)
}

pub fn str_eq(a: &str, b: &str) -> (r: bool)
    ensures
        r == (a@ == b@),
{
    let x = to_chars(a);
    let y = to_chars(b);
    chars_eq(&x, &y)
}


pub open spec fn digit_char(d: int) -> char {
    ((d + 48) as u32) as char
}

/// The decimal digits of `n`, as `{}` formats an unsigned integer.
pub open spec fn decimal(n: nat) -> Seq<char>
    decreases n,
{
    if n < 10 {
        seq![digit_char(n as int)]
    } else {
        decimal(n / 10).push(digit_char((n % 10) as int))
    }
}

pub fn decimal_exec(n: u64) -> (r: Vec<char>)
    ensures
        r@ == decimal(n as nat),
    decreases n,
{
    if n < 10 {
        let c = ((n as u8) + 48) as char;
        vec![c]
    } else {
        let mut v = decimal_exec(n / 10);
        let c = (((n % 10) as u8) + 48) as char;
        v.push(c);
        v
    }
}

} // verus!
