//! How ambient sessions are written to and read from the session database.
use vstd::prelude::*;
use crate::ambient::{AmbientSessionState, AudioLane, CanonicalSegment, SpeakerLabel, SummaryTemplate};
use crate::text::{
    collapse, collapse_spaces, from_chars, join, join_vecs, slice_vec, split_words, starts_with,
    starts_with_exec, str_eq, to_chars, trim, trimmed, views, words, CharClass,
};

verus! {

/// A session as the session list shows it.
pub struct SessionSummary {
    pub id: i64,
    pub title: String,
    pub state: AmbientSessionState,
    pub started_at_ms: i64,
    pub updated_at_ms: i64,
    pub live_notes_preview: String,
}

/// Everything stored about a session.
pub struct SessionDetail {
    pub id: i64,
    pub title: String,
    pub state: AmbientSessionState,
    pub started_at_ms: i64,
    pub ended_at_ms: Option<i64>,
    pub live_notes: String,
    pub structured_notes: String,
    pub transcript_markdown: String,
    pub scratch_pad: String,
    pub summary_template: SummaryTemplate,
    pub segments: Vec<CanonicalSegment>,
}

pub open spec fn state_db(s: AmbientSessionState) -> Seq<char> {
    match s {
        AmbientSessionState::Idle => "idle"@,
        AmbientSessionState::Recording => "recording"@,
        AmbientSessionState::Processing => "processing"@,
        AmbientSessionState::Completed => "completed"@,
        AmbientSessionState::Failed => "failed"@,
    }
}

pub open spec fn state_of_db(v: Seq<char>) -> AmbientSessionState {
    if v == "recording"@ {
        AmbientSessionState::Recording
    } else if v == "processing"@ {
        AmbientSessionState::Processing
    } else if v == "completed"@ {
        AmbientSessionState::Completed
    } else if v == "failed"@ {
        AmbientSessionState::Failed
    } else {
        AmbientSessionState::Idle
    }
}

pub fn state_to_db(state: AmbientSessionState) -> (r: &'static str)
    ensures
        r@ == state_db(state),
{
    match state {
        AmbientSessionState::Idle => "idle",
        AmbientSessionState::Recording => "recording",
        AmbientSessionState::Processing => "processing",
        AmbientSessionState::Completed => "completed",
        AmbientSessionState::Failed => "failed",
    }
}

pub fn state_from_db(value: &str) -> (r: AmbientSessionState)
    ensures
        r == state_of_db(value@),
{
    if str_eq(value, "recording") {
        AmbientSessionState::Recording
    } else if str_eq(value, "processing") {
        AmbientSessionState::Processing
    } else if str_eq(value, "completed") {
        AmbientSessionState::Completed
    } else if str_eq(value, "failed") {
        AmbientSessionState::Failed
    } else {
        AmbientSessionState::Idle
    }
}

pub open spec fn lane_db(l: AudioLane) -> Seq<char> {
    match l {
        AudioLane::Microphone => "microphone"@,
        AudioLane::SystemOutput => "system_output"@,
    }
}

pub open spec fn lane_of_db(v: Seq<char>) -> AudioLane {
    if v == "system_output"@ {
        AudioLane::SystemOutput
    } else {
        AudioLane::Microphone
    }
}

pub fn lane_to_db(lane: AudioLane) -> (r: &'static str)
    ensures
        r@ == lane_db(lane),
{
    match lane {
        AudioLane::Microphone => "microphone",
        AudioLane::SystemOutput => "system_output",
    }
}

pub fn lane_from_db(value: &str) -> (r: AudioLane)
    ensures
        r == lane_of_db(value@),
{
    if str_eq(value, "system_output") {
        AudioLane::SystemOutput
    } else {
        AudioLane::Microphone
    }
}

pub open spec fn speaker_db(s: SpeakerLabel) -> Seq<char> {
    match s {
        SpeakerLabel::You => "you"@,
        SpeakerLabel::S1 => "s1"@,
        SpeakerLabel::S2 => "s2"@,
        SpeakerLabel::S3 => "s3"@,
        SpeakerLabel::S4 => "s4"@,
        SpeakerLabel::S5 => "s5"@,
        SpeakerLabel::S6 => "s6"@,
    }
}

pub open spec fn speaker_of_db(v: Seq<char>) -> SpeakerLabel {
    if v == "s1"@ {
        SpeakerLabel::S1
    } else if v == "s2"@ {
        SpeakerLabel::S2
    } else if v == "s3"@ {
        SpeakerLabel::S3
    } else if v == "s4"@ {
        SpeakerLabel::S4
    } else if v == "s5"@ {
        SpeakerLabel::S5
    } else if v == "s6"@ {
        SpeakerLabel::S6
    } else {
        SpeakerLabel::You
    }
}

pub fn speaker_to_db(speaker: SpeakerLabel) -> (r: &'static str)
    ensures
        r@ == speaker_db(speaker),
{
    match speaker {
        SpeakerLabel::You => "you",
        SpeakerLabel::S1 => "s1",
        SpeakerLabel::S2 => "s2",
        SpeakerLabel::S3 => "s3",
        SpeakerLabel::S4 => "s4",
        SpeakerLabel::S5 => "s5",
        SpeakerLabel::S6 => "s6",
    }
}

pub fn speaker_from_db(value: &str) -> (r: SpeakerLabel)
    ensures
        r == speaker_of_db(value@),
{
    if str_eq(value, "s1") {
        SpeakerLabel::S1
    } else if str_eq(value, "s2") {
        SpeakerLabel::S2
    } else if str_eq(value, "s3") {
        SpeakerLabel::S3
    } else if str_eq(value, "s4") {
        SpeakerLabel::S4
    } else if str_eq(value, "s5") {
        SpeakerLabel::S5
    } else if str_eq(value, "s6") {
        SpeakerLabel::S6
    } else {
        SpeakerLabel::You
    }
}

/// What is stored for a session state, lane or speaker reads back as the same value.
pub proof fn lemma_db_roundtrip(s: AmbientSessionState, l: AudioLane, p: SpeakerLabel)
    ensures
        state_of_db(state_db(s)) == s,
        lane_of_db(lane_db(l)) == l,
        speaker_of_db(speaker_db(p)) == p,
{
    reveal_strlit("idle");
    reveal_strlit("recording");
    reveal_strlit("processing");
    reveal_strlit("completed");
    reveal_strlit("failed");
    reveal_strlit("microphone");
    reveal_strlit("system_output");
    reveal_strlit("you");
    reveal_strlit("s1");
    reveal_strlit("s2");
    reveal_strlit("s3");
    reveal_strlit("s4");
    reveal_strlit("s5");
    reveal_strlit("s6");
    assert("idle"@[0] == 'i' && "recording"@[0] == 'r' && "processing"@[0] == 'p'
        && "completed"@[0] == 'c' && "failed"@[0] == 'f');
    assert("microphone"@[0] == 'm' && "system_output"@[0] == 's');
    assert("you"@[0] == 'y' && "s1"@[1] == '1' && "s2"@[1] == '2' && "s3"@[1] == '3'
        && "s4"@[1] == '4' && "s5"@[1] == '5' && "s6"@[1] == '6');
    assert("you"@ != "s1"@ && "you"@ != "s2"@ && "you"@ != "s3"@ && "you"@ != "s4"@ && "you"@
        != "s5"@ && "you"@ != "s6"@);
}

pub open spec fn starred(ws: Seq<Seq<char>>) -> Seq<Seq<char>> {
    ws.map_values(|w: Seq<char>| w.push('*'))
}

/// `fts_query`: each word of the search as a prefix query, separated by spaces.
pub open spec fn fts_of(search: Seq<char>) -> Seq<char> {
    join(starred(words(search)), seq![' '])
}

pub fn fts_query(search: &str) -> (r: String)
    ensures
        r@ == fts_of(search@),
{
    let s = to_chars(search);
    let ws = split_words(&s);
    let ghost wv = views(ws@);
    assert(wv =~= words(s@));
    let mut parts: Vec<Vec<char>> = Vec::new();
    for i in 0..ws.len()
        invariant
            wv == views(ws@),
            views(parts@) == starred(wv.take(i as int)),
    {
        let mut w = crate::text::clone_chars(&ws[i]);
        w.push('*');
        proof {
            crate::text::lemma_views_push(parts@, w);
            assert(starred(wv.take(i + 1)) =~= starred(wv.take(i as int)).push(wv[i as int].push('*')));
        }
        parts.push(w);
    }
    assert(wv.take(ws.len() as int) =~= wv);
    let sep = vec![' '];
    assert(sep@ =~= seq![' ']);
    let j = join_vecs(&parts, &sep);
    assert(parts@.map_values(|p: Vec<char>| p@) =~= views(parts@));
    from_chars(&j)
}

pub open spec fn strip_speaker_prefix(line: Seq<char>) -> Seq<char> {
    if starts_with(line, "You:"@) {
        line.skip(4)
    } else if starts_with(line, "S1:"@) {
        line.skip(3)
    } else if starts_with(line, "S2:"@) {
        line.skip(3)
    } else {
        line
    }
}

/// `preview`: "No notes yet" for blank notes; otherwise the first line without a leading
/// "You:", "S1:" or "S2:", its whitespace collapsed, cut to 56 characters.
pub open spec fn preview_of(text: Seq<char>) -> Seq<char> {
    let t = trim(text);
    if t.len() == 0 {
        "No notes yet"@
    } else {
        let ls = crate::markdown::lines(t);
        let first = trim(if ls.len() > 0 {
            ls[0]
        } else {
            t
        });
        crate::ambient::take_chars(collapse(trim(strip_speaker_prefix(first))), 56)
    }
}

pub fn strip_speaker_prefix_exec(line: &Vec<char>) -> (r: Vec<char>)
    ensures
        r@ == strip_speaker_prefix(line@),
{
    let you = to_chars("You:");
    let s1 = to_chars("S1:");
    let s2 = to_chars("S2:");
    proof {
        reveal_strlit("You:");
        reveal_strlit("S1:");
        reveal_strlit("S2:");
    }
    if starts_with_exec(line, &you) {
        let r = slice_vec(line, 4, line.len());
        assert(r@ =~= line@.skip(4));
        r
    } else if starts_with_exec(line, &s1) {
        let r = slice_vec(line, 3, line.len());
        assert(r@ =~= line@.skip(3));
        r
    } else if starts_with_exec(line, &s2) {
        let r = slice_vec(line, 3, line.len());
        assert(r@ =~= line@.skip(3));
        r
    } else {
        crate::text::clone_chars(line)
    }
}

pub fn preview(text: &str) -> (r: String)
    ensures
        r@ == preview_of(text@),
{
    let tc = to_chars(text);
    let t = trimmed(&tc, CharClass::Whitespace);
    if t.len() == 0 {
        return "No notes yet".to_string();
    }
    let ls = crate::markdown::split_lines(&t);
    let first0 = if ls.len() > 0 {
        crate::text::clone_chars(&ls[0])
    } else {
        crate::text::clone_chars(&t)
    };
    let first = trimmed(&first0, CharClass::Whitespace);
    let stripped = strip_speaker_prefix_exec(&first);
    let st = trimmed(&stripped, CharClass::Whitespace);
    let c = collapse_spaces(&st);
    let p = crate::ambient::take_chars_exec(&c, 56);
    from_chars(&p)
}

} // verus!
