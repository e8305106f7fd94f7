//! Ambient note-taking: audio lanes, speakers, transcript segments and notes.
use vstd::prelude::*;
use crate::markdown::{list_item_body, list_item_body_exec, polish, polish_summary_markdown_chars};
use crate::text::{
    append_vec, collapse, from_chars, str_eq, to_chars, trim, trimmed, views, CharClass,
};
use crate::transcript::{clean_text, clean_transcript_text, stitch, stitch_chars};

verus! {

pub const DEFAULT_CHUNK_SECONDS: u64 = 8;
pub const DEFAULT_OVERLAP_SECONDS: u64 = 1;

#[derive(Clone, Copy, Debug, PartialEq, Eq, Structural)]
pub enum AudioLane {
    Microphone,
    SystemOutput,
}

impl AudioLane {
    pub fn label(self) -> (r: &'static str)
        ensures
            r@ == match self {
                AudioLane::Microphone => "Microphone"@,
                AudioLane::SystemOutput => "System Output"@,
            },
    {
        match self {
            AudioLane::Microphone => "Microphone",
            AudioLane::SystemOutput => "System Output",
        }
    }
}

#[derive(Clone, Copy, Debug, PartialEq, Eq, Structural)]
pub enum SpeakerLabel {
    You,
    S1,
    S2,
    S3,
    S4,
    S5,
    S6,
}

pub open spec fn speaker_name(s: SpeakerLabel) -> Seq<char> {
    match s {
        SpeakerLabel::You => "You"@,
        SpeakerLabel::S1 => "Person A"@,
        SpeakerLabel::S2 => "Person B"@,
        SpeakerLabel::S3 => "Person C"@,
        SpeakerLabel::S4 => "Person D"@,
        SpeakerLabel::S5 => "Person E"@,
        SpeakerLabel::S6 => "Person F"@,
    }
}

pub open spec fn speaker_index(s: SpeakerLabel) -> usize {
    match s {
        SpeakerLabel::You | SpeakerLabel::S1 => 0,
        SpeakerLabel::S2 => 1,
        SpeakerLabel::S3 => 2,
        SpeakerLabel::S4 => 3,
        SpeakerLabel::S5 => 4,
        SpeakerLabel::S6 => 5,
    }
}

pub open spec fn speaker_next(s: SpeakerLabel) -> SpeakerLabel {
    match s {
        SpeakerLabel::You | SpeakerLabel::S1 => SpeakerLabel::S2,
        SpeakerLabel::S2 => SpeakerLabel::S3,
        SpeakerLabel::S3 => SpeakerLabel::S4,
        SpeakerLabel::S4 => SpeakerLabel::S5,
        SpeakerLabel::S5 => SpeakerLabel::S6,
        SpeakerLabel::S6 => SpeakerLabel::S6,
    }
}

impl SpeakerLabel {
    pub fn display_name(self) -> (r: &'static str)
        ensures
            r@ == speaker_name(self),
    {
        match self {
            SpeakerLabel::You => "You",
            SpeakerLabel::S1 => "Person A",
            SpeakerLabel::S2 => "Person B",
            SpeakerLabel::S3 => "Person C",
            SpeakerLabel::S4 => "Person D",
            SpeakerLabel::S5 => "Person E",
            SpeakerLabel::S6 => "Person F",
        }
    }

    pub fn index(self) -> (r: usize)
        ensures
            r == speaker_index(self),
    {
        match self {
            SpeakerLabel::You | SpeakerLabel::S1 => 0,
            SpeakerLabel::S2 => 1,
            SpeakerLabel::S3 => 2,
            SpeakerLabel::S4 => 3,
            SpeakerLabel::S5 => 4,
            SpeakerLabel::S6 => 5,
        }
    }

    pub fn next(self) -> (r: SpeakerLabel)
        ensures
            r == speaker_next(self),
    {
        match self {
            SpeakerLabel::You | SpeakerLabel::S1 => SpeakerLabel::S2,
            SpeakerLabel::S2 => SpeakerLabel::S3,
            SpeakerLabel::S3 => SpeakerLabel::S4,
            SpeakerLabel::S4 => SpeakerLabel::S5,
            SpeakerLabel::S5 => SpeakerLabel::S6,
            SpeakerLabel::S6 => SpeakerLabel::S6,
        }
    }
}

/// The speaker after `s` has the next index, up to the last speaker, which stays last.
pub proof fn lemma_next_speaker_index(s: SpeakerLabel)
    ensures
        speaker_index(speaker_next(s)) == if speaker_index(s) < 5 {
            speaker_index(s) + 1
        } else {
            5
        },
        speaker_next(s) != SpeakerLabel::You,
{
}

#[derive(Clone, Copy, Debug, PartialEq, Eq, Structural)]
pub enum SummaryTemplate {
    General,
    OneOnOne,
    TeamMeeting,
    StandUp,
}

pub open spec fn template_db(t: SummaryTemplate) -> Seq<char> {
    match t {
        SummaryTemplate::General => "general"@,
        SummaryTemplate::OneOnOne => "one_on_one"@,
        SummaryTemplate::TeamMeeting => "team_meeting"@,
        SummaryTemplate::StandUp => "stand_up"@,
    }
}

pub open spec fn template_from_db(v: Seq<char>) -> SummaryTemplate {
    if v == "one_on_one"@ {
        SummaryTemplate::OneOnOne
    } else if v == "team_meeting"@ {
        SummaryTemplate::TeamMeeting
    } else if v == "stand_up"@ {
        SummaryTemplate::StandUp
    } else {
        SummaryTemplate::General
    }
}

impl SummaryTemplate {
    pub fn label(self) -> (r: &'static str)
        ensures
            r@ == match self {
                SummaryTemplate::General => "General"@,
                SummaryTemplate::OneOnOne => "1:1"@,
                SummaryTemplate::TeamMeeting => "Team Meeting"@,
                SummaryTemplate::StandUp => "Stand-up"@,
            },
    {
        match self {
            SummaryTemplate::General => "General",
            SummaryTemplate::OneOnOne => "1:1",
            SummaryTemplate::TeamMeeting => "Team Meeting",
            SummaryTemplate::StandUp => "Stand-up",
        }
    }

    pub fn all() -> (r: &'static [SummaryTemplate])
        ensures
            r@ == seq![
                SummaryTemplate::General,
                SummaryTemplate::OneOnOne,
                SummaryTemplate::TeamMeeting,
                SummaryTemplate::StandUp,
            ],
    {
        &[
            SummaryTemplate::General,
            SummaryTemplate::OneOnOne,
            SummaryTemplate::TeamMeeting,
            SummaryTemplate::StandUp,
        ]
    }

    pub fn from_db(value: &str) -> (r: SummaryTemplate)
        ensures
            r == template_from_db(value@),
    {
        if str_eq(value, "one_on_one") {
            SummaryTemplate::OneOnOne
        } else if str_eq(value, "team_meeting") {
            SummaryTemplate::TeamMeeting
        } else if str_eq(value, "stand_up") {
            SummaryTemplate::StandUp
        } else {
            SummaryTemplate::General
        }
    }

    pub fn to_db(self) -> (r: &'static str)
        ensures
            r@ == template_db(self),
    {
        match self {
            SummaryTemplate::General => "general",
            SummaryTemplate::OneOnOne => "one_on_one",
            SummaryTemplate::TeamMeeting => "team_meeting",
            SummaryTemplate::StandUp => "stand_up",
        }
    }
}

/// Reading back what `to_db` stores gives the same template.
pub proof fn lemma_template_db_roundtrip(t: SummaryTemplate)
    ensures
        template_from_db(template_db(t)) == t,
{
    reveal_strlit("general");
    reveal_strlit("one_on_one");
    reveal_strlit("team_meeting");
    reveal_strlit("stand_up");
    assert("general"@[0] == 'g' && "one_on_one"@[0] == 'o' && "team_meeting"@[0] == 't'
        && "stand_up"@[0] == 's');
    assert("general"@ != "one_on_one"@);
    assert("general"@ != "team_meeting"@);
    assert("general"@ != "stand_up"@);
    assert("team_meeting"@ != "one_on_one"@);
    assert("stand_up"@ != "one_on_one"@);
    assert("stand_up"@ != "team_meeting"@);
}

#[derive(Clone, Copy, Debug, PartialEq, Eq, Structural)]
pub enum AmbientSessionState {
    Idle,
    Recording,
    Processing,
    Completed,
    Failed,
}

#[derive(Clone, Copy, Debug, PartialEq, Eq, Structural)]
pub struct AmbientSessionConfig {
    pub enable_microphone: bool,
    pub enable_system_audio: bool,
    pub chunk_seconds: u64,
    pub overlap_seconds: u64,
}

impl Default for AmbientSessionConfig {
    fn default() -> (r: Self)
        ensures
            r == (AmbientSessionConfig {
                enable_microphone: true,
                enable_system_audio: true,
                chunk_seconds: DEFAULT_CHUNK_SECONDS,
                overlap_seconds: DEFAULT_OVERLAP_SECONDS,
            }),
    {
        AmbientSessionConfig {
            enable_microphone: true,
            enable_system_audio: true,
            chunk_seconds: DEFAULT_CHUNK_SECONDS,
            overlap_seconds: DEFAULT_OVERLAP_SECONDS,
        }
    }
}

/// A transcript bubble: one speaker's text over a time span.
#[derive(Debug)]
pub struct CanonicalSegment {
    pub id: u64,
    pub lane: AudioLane,
    pub speaker: SpeakerLabel,
    pub start_ms: u64,
    pub end_ms: u64,
    pub text: String,
}

pub ghost struct SegmentView {
    pub id: u64,
    pub lane: AudioLane,
    pub speaker: SpeakerLabel,
    pub start_ms: u64,
    pub end_ms: u64,
    pub text: Seq<char>,
}

impl View for CanonicalSegment {
    type V = SegmentView;

    open spec fn view(&self) -> SegmentView {
        SegmentView {
            id: self.id,
            lane: self.lane,
            speaker: self.speaker,
            start_ms: self.start_ms,
            end_ms: self.end_ms,
            text: self.text@,
        }
    }
}

pub open spec fn seg_views(v: Seq<CanonicalSegment>) -> Seq<SegmentView> {
    v.map_values(|s: CanonicalSegment| s@)
}

pub proof fn lemma_seg_views_push(v: Seq<CanonicalSegment>, x: CanonicalSegment)
    ensures
        seg_views(v.push(x)) == seg_views(v).push(x@),
{
    assert(seg_views(v.push(x)) =~= seg_views(v).push(x@));
}

pub open spec fn note_line_of(s: SegmentView) -> Seq<char> {
    speaker_name(s.speaker) + seq![':', ' '] + trim(s.text)
}

impl CanonicalSegment {
    /// A copy of the segment.
    pub fn duplicate(&self) -> (r: CanonicalSegment)
        ensures
            r@ == self@,
    {
        CanonicalSegment {
            id: self.id,
            lane: self.lane,
            speaker: self.speaker,
            start_ms: self.start_ms,
            end_ms: self.end_ms,
            text: self.text.clone(),
        }
    }

    /// `Speaker name: text`.
    pub fn note_line(&self) -> (r: String)
        ensures
            r@ == note_line_of(self@),
    {
        let mut out = to_chars(self.speaker.display_name());
        out.push(':');
        out.push(' ');
        let t = to_chars(self.text.as_str());
        let tt = trimmed(&t, CharClass::Whitespace);
        append_vec(&mut out, &tt);
        assert(out@ =~= note_line_of(self@));
        from_chars(&out)
    }
}

pub struct TranscriptSegment {
    pub lane: AudioLane,
    pub start_ms: u64,
    pub end_ms: u64,
    pub speaker_turn_next: bool,
    pub text: String,
}

pub struct DiarizedSegment {
    pub lane: AudioLane,
    pub speaker: SpeakerLabel,
    pub start_ms: u64,
    pub end_ms: u64,
    pub text: String,
    /// Hint from the transcriber that this segment should start a new bubble
    /// (e.g. a detected speaker turn boundary).
    pub force_new: bool,
}

pub struct SessionRecord {
    pub id: i64,
    pub title: String,
    pub state: AmbientSessionState,
    pub live_note_markdown: String,
    pub structured_note_markdown: String,
    pub transcript_markdown: String,
    pub scratch_pad: String,
}

pub open spec fn chunk_step(chunk_seconds: u64, overlap_seconds: u64, sample_rate: usize) -> int {
    let chunk = (chunk_seconds as usize) * sample_rate;
    let overlap = (overlap_seconds as usize) * sample_rate;
    let step = if chunk >= overlap {
        chunk - overlap
    } else {
        0
    };
    if step >= sample_rate {
        step
    } else {
        sample_rate as int
    }
}

/// Samples between the starts of two consecutive chunks: the chunk length minus the
/// overlap, at least one second.
pub fn chunk_step_samples(chunk_seconds: u64, overlap_seconds: u64, sample_rate: usize) -> (r:
    usize)
    requires
        (chunk_seconds as usize) * sample_rate <= usize::MAX,
        (overlap_seconds as usize) * sample_rate <= usize::MAX,
    ensures
        r == chunk_step(chunk_seconds, overlap_seconds, sample_rate),
        r >= sample_rate,
{
    proof {
        if sample_rate > 0 {
            vstd::arithmetic::mul::lemma_mul_inequality(1, sample_rate as int, sample_rate as int);
        }
    }
    let cs = chunk_seconds as usize;
    let os = overlap_seconds as usize;
    let chunk = cs * sample_rate;
    let overlap = os * sample_rate;
    let step = if chunk >= overlap {
        chunk - overlap
    } else {
        0
    };
    if step >= sample_rate {
        step
    } else {
        sample_rate
    }
}

pub fn chunk_len_samples(chunk_seconds: u64, sample_rate: usize) -> (r: usize)
    requires
        (chunk_seconds as usize) * sample_rate <= usize::MAX,
    ensures
        r == (chunk_seconds as usize) * sample_rate,
{
    let cs = chunk_seconds as usize;
    cs * sample_rate
}


pub open spec fn with_text(s: SegmentView, t: Seq<char>) -> SegmentView {
    SegmentView { text: t, ..s }
}

pub open spec fn sat_sub(a: u64, b: u64) -> int {
    if a >= b {
        a - b
    } else {
        0
    }
}

pub open spec fn ends_sentence_char(t: Seq<char>) -> bool {
    t.len() > 0 && (t.last() == '.' || t.last() == '!' || t.last() == '?')
}

/// The segments after `merge_segment`, and what it returns. The incoming text is cleaned and
/// stitched onto the last segment's text; when nothing new is left, nothing changes. Unless
/// `force_new`, text from the same speaker on the same lane that starts at most 800 ms after
/// the last segment ends extends that segment; otherwise it becomes a new segment.
pub open spec fn merge(segs: Seq<SegmentView>, inc: SegmentView, force_new: bool) -> (
    Seq<SegmentView>,
    Option<SegmentView>,
) {
    let t = clean_text(inc.text);
    let stitched = if segs.len() > 0 {
        stitch(segs.last().text, t)
    } else {
        t
    };
    if trim(stitched).len() == 0 {
        (segs, None)
    } else if !force_new && segs.len() > 0 && segs.last().speaker == inc.speaker
        && segs.last().lane == inc.lane && sat_sub(inc.start_ms, segs.last().end_ms) <= 800 {
        let last = segs.last();
        let base = if ends_sentence_char(last.text) {
            last.text
        } else {
            last.text.push(' ')
        };
        let merged = SegmentView {
            text: clean_text(base + trim(stitched)),
            end_ms: inc.end_ms,
            ..last
        };
        (segs.drop_last().push(merged), Some(merged))
    } else {
        let t2 = clean_text(stitched);
        if trim(t2).len() == 0 {
            (segs, None)
        } else {
            let added = with_text(inc, t2);
            (segs.push(added), Some(added))
        }
    }
}

/// Merging never moves words to another speaker: the segment that comes back carries the
/// incoming speaker and lane and is the new last segment; and where the incoming speaker is
/// not that of the last segment (or a new segment is forced), every earlier segment stays as
/// it was and anything new is added after them.
pub proof fn lemma_merge_keeps_speakers(segs: Seq<SegmentView>, inc: SegmentView, force_new: bool)
    ensures
        ({
            let (after, ret) = merge(segs, inc, force_new);
            &&& ret matches Some(x) ==> x.speaker == inc.speaker && x.lane == inc.lane
                && after.len() > 0 && after.last() == x
            &&& (force_new || segs.len() == 0 || segs.last().speaker != inc.speaker) ==> (
            after.subrange(0, segs.len() as int) == segs && match ret {
                Some(x) => after == segs.push(x),
                None => after == segs,
            })
        }),
{
    let (after, ret) = merge(segs, inc, force_new);
    if force_new || segs.len() == 0 || segs.last().speaker != inc.speaker {
        assert(after.subrange(0, segs.len() as int) =~= segs);
    }
}

pub fn merge_segment(
    segments: &mut Vec<CanonicalSegment>,
    incoming: CanonicalSegment,
    force_new: bool,
) -> (r: Option<CanonicalSegment>)
    ensures
        seg_views(final(segments)@) == merge(seg_views(old(segments)@), incoming@, force_new).0,
        match r {
            Some(x) => merge(seg_views(old(segments)@), incoming@, force_new).1 == Some(x@),
            None => merge(seg_views(old(segments)@), incoming@, force_new).1 is None,
        },
{
    let ghost old_v = seg_views(segments@);
    let inc_chars = to_chars(incoming.text.as_str());
    let t = clean_transcript_text(&inc_chars);
    let n = segments.len();
    let stitched = if n > 0 {
        let last_chars = to_chars(segments[n - 1].text.as_str());
        stitch_chars(&last_chars, &t)
    } else {
        t
    };
    let st = trimmed(&stitched, CharClass::Whitespace);
    if st.len() == 0 {
        return None;
    }
    if !force_new && n > 0 && segments[n - 1].speaker == incoming.speaker && segments[n - 1].lane
        == incoming.lane {
        let gap = if incoming.start_ms >= segments[n - 1].end_ms {
            incoming.start_ms - segments[n - 1].end_ms
        } else {
            0
        };
        if gap <= 800 {
            let last = segments.pop().unwrap();
            assert(seg_views(segments@) =~= old_v.drop_last());
            let mut base = to_chars(last.text.as_str());
            let bl = base.len();
            if !(bl > 0 && (base[bl - 1] == '.' || base[bl - 1] == '!' || base[bl - 1] == '?')) {
                base.push(' ');
            }
            append_vec(&mut base, &st);
            let cleaned = clean_transcript_text(&base);
            let merged = CanonicalSegment {
                id: last.id,
                lane: last.lane,
                speaker: last.speaker,
                start_ms: last.start_ms,
                end_ms: incoming.end_ms,
                text: from_chars(&cleaned),
            };
            let out = merged.duplicate();
            proof {
                lemma_seg_views_push(segments@, merged);
            }
            segments.push(merged);
            return Some(out);
        }
    }
    let t2 = clean_transcript_text(&stitched);
    let tt = trimmed(&t2, CharClass::Whitespace);
    if tt.len() == 0 {
        return None;
    }
    let added = CanonicalSegment {
        id: incoming.id,
        lane: incoming.lane,
        speaker: incoming.speaker,
        start_ms: incoming.start_ms,
        end_ms: incoming.end_ms,
        text: from_chars(&t2),
    };
    let out = added.duplicate();
    proof {
        lemma_seg_views_push(segments@, added);
    }
    segments.push(added);
    Some(out)
}

/// Merging adds at most one segment and changes no segment but the last; a forced new
/// segment changes none, and what is returned is the new last segment.
pub proof fn lemma_merge_shape(segs: Seq<SegmentView>, inc: SegmentView, force_new: bool)
    ensures
        ({
            let (after, ret) = merge(segs, inc, force_new);
            &&& after.len() == segs.len() || after.len() == segs.len() + 1
            &&& forall|k: int| 0 <= k < segs.len() - 1 ==> after[k] == segs[k]
            &&& force_new ==> after.subrange(0, segs.len() as int) == segs
            &&& match ret {
                Some(x) => after.len() > 0 && after.last() == x,
                None => after == segs,
            }
        }),
{
    let (after, ret) = merge(segs, inc, force_new);
    if force_new && after.len() == segs.len() + 1 {
        assert(after.subrange(0, segs.len() as int) =~= segs);
    }
    if force_new && after.len() == segs.len() {
        assert(after.subrange(0, segs.len() as int) =~= segs);
    }
}

/// `clean_canonical_segments` after the first `n` segments.
pub open spec fn clean_segments_fold(segs: Seq<SegmentView>) -> Seq<SegmentView>
    decreases segs.len(),
{
    if segs.len() == 0 {
        Seq::empty()
    } else {
        let acc = clean_segments_fold(segs.drop_last());
        let t = clean_text(segs.last().text);
        if trim(t).len() == 0 {
            acc
        } else {
            merge(acc, with_text(segs.last(), t), false).0
        }
    }
}

/// Cleaning the segments of a session never adds one.
pub proof fn lemma_clean_segments_len(segs: Seq<SegmentView>)
    ensures
        clean_segments_fold(segs).len() <= segs.len(),
    decreases segs.len(),
{
    if segs.len() > 0 {
        lemma_clean_segments_len(segs.drop_last());
        let acc = clean_segments_fold(segs.drop_last());
        let t = clean_text(segs.last().text);
        lemma_merge_shape(acc, with_text(segs.last(), t), false);
    }
}

#[verifier::spinoff_prover]
#[verifier::rlimit(40)]
pub fn clean_canonical_segments(segments: &[CanonicalSegment]) -> (r: Vec<CanonicalSegment>)
    ensures
        seg_views(r@) == clean_segments_fold(seg_views(segments@)),
{
    let ghost sv = seg_views(segments@);
    let mut cleaned: Vec<CanonicalSegment> = Vec::new();
    for i in 0..segments.len()
        invariant
            sv == seg_views(segments@),
            seg_views(cleaned@) == clean_segments_fold(sv.take(i as int)),
    {
        assert(sv.take(i + 1).drop_last() =~= sv.take(i as int));
        assert(sv.take(i + 1).last() == sv[i as int]);
        let seg = &segments[i];
        let tc = to_chars(seg.text.as_str());
        let t = clean_transcript_text(&tc);
        let tt = trimmed(&t, CharClass::Whitespace);
        if tt.len() > 0 {
            let normalized = CanonicalSegment {
                id: seg.id,
                lane: seg.lane,
                speaker: seg.speaker,
                start_ms: seg.start_ms,
                end_ms: seg.end_ms,
                text: from_chars(&t),
            };
            let _ = merge_segment(&mut cleaned, normalized, false);
        }
    }
    assert(sv.take(segments.len() as int) =~= sv);
    cleaned
}

/// The note lines of the segments, one per line.
pub open spec fn transcript_of(segs: Seq<SegmentView>) -> Seq<char> {
    crate::text::join(segs.map_values(|s: SegmentView| note_line_of(s)), seq!['\n'])
}

pub fn segments_to_transcript(segments: &[CanonicalSegment]) -> (r: String)
    ensures
        r@ == transcript_of(seg_views(segments@)),
{
    let ghost sv = seg_views(segments@);
    let ghost lines = sv.map_values(|s: SegmentView| note_line_of(s));
    let mut out: Vec<char> = Vec::new();
    for i in 0..segments.len()
        invariant
            sv == seg_views(segments@),
            lines == sv.map_values(|s: SegmentView| note_line_of(s)),
            out@ == crate::text::join(lines.take(i as int), seq!['\n']),
    {
        assert(lines.take(i + 1).drop_last() =~= lines.take(i as int));
        let line = segments[i].note_line();
        let lc = to_chars(line.as_str());
        if i > 0 {
            out.push('\n');
        }
        let ghost before = out@;
        append_vec(&mut out, &lc);
        proof {
            if i == 0 {
                assert(out@ =~= lines.take(1)[0]);
            } else {
                assert(out@ =~= before + lc@);
            }
        }
    }
    assert(lines.take(segments.len() as int) =~= lines);
    from_chars(&out)
}


pub open spec fn take_chars(s: Seq<char>, n: int) -> Seq<char> {
    if s.len() <= n {
        s
    } else {
        s.take(n)
    }
}

pub fn take_chars_exec(s: &Vec<char>, n: usize) -> (r: Vec<char>)
    ensures
        r@ == take_chars(s@, n as int),
{
    if s.len() <= n {
        crate::text::clone_chars(s)
    } else {
        let r = crate::text::slice_vec(s, 0, n);
        assert(r@ =~= s@.take(n as int));
        r
    }
}

/// The first line that is not blank once trimmed, trimmed; empty when there is none.
pub open spec fn first_filled(ls: Seq<Seq<char>>) -> Seq<char>
    decreases ls.len(),
{
    if ls.len() == 0 {
        Seq::empty()
    } else if trim(ls[0]).len() > 0 {
        trim(ls[0])
    } else {
        first_filled(ls.drop_first())
    }
}

pub open spec fn segment_texts(segs: Seq<SegmentView>) -> Seq<Seq<char>> {
    segs.map_values(|s: SegmentView| s.text)
}

/// `heuristic_title`: the first filled line of the live notes, else the text of the first
/// segment that has any, cut to 48 characters; else "Ambient session".
pub open spec fn title_of(live_notes: Seq<char>, segs: Seq<SegmentView>) -> Seq<char> {
    let f = first_filled(crate::markdown::lines(live_notes));
    if f.len() > 0 {
        take_chars(f, 48)
    } else {
        let g = first_filled(segment_texts(segs));
        if g.len() > 0 {
            take_chars(g, 48)
        } else {
            "Ambient session"@
        }
    }
}

proof fn lemma_first_filled_at(ls: Seq<Seq<char>>, j: int)
    requires
        0 <= j < ls.len(),
        trim(ls[j]).len() > 0,
        forall|i: int| 0 <= i < j ==> trim(#[trigger] ls[i]).len() == 0,
    ensures
        first_filled(ls) == trim(ls[j]),
    decreases j,
{
    if j > 0 {
        let rest = ls.drop_first();
        assert forall|i: int| 0 <= i < j - 1 implies trim(#[trigger] rest[i]).len() == 0 by {
            assert(rest[i] == ls[i + 1]);
        }
        assert(rest[j - 1] == ls[j]);
        assert(trim(ls[0]).len() == 0);
        lemma_first_filled_at(rest, j - 1);
    }
}

/// The live notes come first in a session's title: where the notes have a line that is not
/// blank once trimmed, the title is the first such line, trimmed and cut to 48 characters,
/// whatever the segments hold.
pub proof fn lemma_title_from_live_notes(live_notes: Seq<char>, segs: Seq<SegmentView>, j: int)
    requires
        0 <= j < crate::markdown::lines(live_notes).len(),
        trim(crate::markdown::lines(live_notes)[j]).len() > 0,
        forall|i: int|
            0 <= i < j ==> trim(#[trigger] crate::markdown::lines(live_notes)[i]).len() == 0,
    ensures
        ({
            let line = trim(crate::markdown::lines(live_notes)[j]);
            title_of(live_notes, segs) == if line.len() <= 48 {
                line
            } else {
                line.take(48)
            }
        }),
{
    lemma_first_filled_at(crate::markdown::lines(live_notes), j);
}

pub fn first_filled_exec(ls: &Vec<Vec<char>>) -> (r: Vec<char>)
    ensures
        r@ == first_filled(views(ls@)),
{
    let ghost lv = views(ls@);
    let mut i: usize = 0;
    assert(lv.skip(0) =~= lv);
    while i < ls.len()
        invariant
            lv == views(ls@),
            i <= ls@.len(),
            first_filled(lv) == first_filled(lv.skip(i as int)),
        decreases ls.len() - i,
    {
        assert(lv.skip(i as int)[0] == lv[i as int]);
        assert(lv.skip(i as int).drop_first() =~= lv.skip(i + 1));
        let t = trimmed(&ls[i], CharClass::Whitespace);
        if t.len() > 0 {
            return t;
        }
        i = i + 1;
    }
    assert(lv.skip(i as int).len() == 0);
    Vec::new()
}

pub fn heuristic_title(live_notes: &str, segments: &[CanonicalSegment]) -> (r: String)
    ensures
        r@ == title_of(live_notes@, seg_views(segments@)),
{
    let ln = to_chars(live_notes);
    let ls = crate::markdown::split_lines(&ln);
    let f = first_filled_exec(&ls);
    if f.len() > 0 {
        let t = take_chars_exec(&f, 48);
        return from_chars(&t);
    }
    let mut texts: Vec<Vec<char>> = Vec::new();
    let ghost sv = seg_views(segments@);
    for i in 0..segments.len()
        invariant
            sv == seg_views(segments@),
            views(texts@) == segment_texts(sv.take(i as int)),
    {
        let tc = to_chars(segments[i].text.as_str());
        proof {
            crate::text::lemma_views_push(texts@, tc);
            assert(segment_texts(sv.take(i + 1)) =~= segment_texts(sv.take(i as int)).push(tc@));
        }
        texts.push(tc);
    }
    assert(sv.take(segments.len() as int) =~= sv);
    let g = first_filled_exec(&texts);
    if g.len() > 0 {
        let t = take_chars_exec(&g, 48);
        return from_chars(&t);
    }
    "Ambient session".to_string()
}

pub fn polish_summary_markdown(markdown: &str) -> (r: String)
    ensures
        r@ == polish(markdown@),
{
    let m = to_chars(markdown);
    let p = polish_summary_markdown_chars(&m);
    from_chars(&p)
}

pub fn stitch_text(existing: &str, incoming: &str) -> (r: String)
    ensures
        r@ == stitch(existing@, incoming@),
{
    let e = to_chars(existing);
    let i = to_chars(incoming);
    let s = stitch_chars(&e, &i);
    from_chars(&s)
}


pub open spec fn string_views(v: Seq<String>) -> Seq<Seq<char>> {
    v.map_values(|x: String| x@)
}

/// The trimmed lines that are not empty.
pub open spec fn filled_lines(ls: Seq<Seq<char>>) -> Seq<Seq<char>>
    decreases ls.len(),
{
    if ls.len() == 0 {
        Seq::empty()
    } else {
        crate::transcript::push_nonempty(filled_lines(ls.drop_last()), trim(ls.last()))
    }
}

pub open spec fn item_text(line: Seq<char>) -> Seq<char> {
    match list_item_body(line) {
        Some(b) => b,
        None => line,
    }
}

/// The lines as they follow a section heading: `- ` bullets (or plain lines under
/// "Transcript"), one per line.
pub open spec fn section_lines(ls: Seq<Seq<char>>, plain: bool) -> Seq<char>
    decreases ls.len(),
{
    if ls.len() == 0 {
        Seq::empty()
    } else if plain {
        section_lines(ls.drop_last(), plain) + ls.last() + seq!['\n']
    } else {
        section_lines(ls.drop_last(), plain) + seq!['-', ' '] + item_text(ls.last()) + seq!['\n']
    }
}

/// `push_section`: a `## heading` block with the filled lines as bullets, or `- None`.
pub open spec fn section(heading: Seq<char>, ls: Seq<Seq<char>>) -> Seq<char> {
    let ne = filled_lines(ls);
    let head = seq!['#', '#', ' '] + heading + seq!['\n', '\n'];
    if ne.len() == 0 {
        head + seq!['-', ' ', 'N', 'o', 'n', 'e', '\n', '\n']
    } else {
        head + section_lines(ne, heading == "Transcript"@) + seq!['\n']
    }
}

pub fn push_section(out: &mut Vec<char>, heading: &str, lines: &Vec<String>)
    ensures
        final(out)@ == old(out)@ + section(heading@, string_views(lines@)),
{
    let ghost lv = string_views(lines@);
    let h = to_chars(heading);
    let mut head: Vec<char> = vec!['#', '#', ' '];
    append_vec(&mut head, &h);
    head.push('\n');
    head.push('\n');
    let mut ne: Vec<Vec<char>> = Vec::new();
    for i in 0..lines.len()
        invariant
            lv == string_views(lines@),
            views(ne@) == filled_lines(lv.take(i as int)),
    {
        assert(lv.take(i + 1).drop_last() =~= lv.take(i as int));
        let lc = to_chars(lines[i].as_str());
        let t = trimmed(&lc, CharClass::Whitespace);
        if t.len() > 0 {
            proof {
                crate::text::lemma_views_push(ne@, t);
            }
            ne.push(t);
        }
    }
    assert(lv.take(lines.len() as int) =~= lv);
    append_vec(out, &head);
    if ne.len() == 0 {
        let none = vec!['-', ' ', 'N', 'o', 'n', 'e', '\n', '\n'];
        append_vec(out, &none);
        proof {
            assert(final(out)@ =~= old(out)@ + section(heading@, lv));
        }
        return;
    }
    let plain = str_eq(heading, "Transcript");
    let ghost nv = views(ne@);
    let ghost start = out@;
    let mut body: Vec<char> = Vec::new();
    for i in 0..ne.len()
        invariant
            nv == views(ne@),
            body@ == section_lines(nv.take(i as int), plain),
    {
        assert(nv.take(i + 1).drop_last() =~= nv.take(i as int));
        if plain {
            append_vec(&mut body, &ne[i]);
        } else {
            body.push('-');
            body.push(' ');
            let item = list_item_body_exec(&ne[i]);
            match item {
                Some(b) => append_vec(&mut body, &b),
                None => append_vec(&mut body, &ne[i]),
            }
        }
        body.push('\n');
        proof {
            assert(body@ =~= section_lines(nv.take(i + 1), plain));
        }
    }
    assert(nv.take(ne.len() as int) =~= nv);
    append_vec(out, &body);
    out.push('\n');
    proof {
        assert(final(out)@ =~= old(out)@ + section(heading@, lv));
    }
}

/// Meeting notes, as a summary in sections or as free-form markdown.
pub struct StructuredNotes {
    pub summary: String,
    pub key_points: Vec<String>,
    pub decisions: Vec<String>,
    pub action_items: Vec<String>,
    pub open_questions: Vec<String>,
    pub transcript: String,
    /// Free-form markdown produced by the General template. When present,
    /// `to_markdown()` emits this directly. Transcript content is stored and
    /// rendered separately by the app.
    pub raw_notes: Option<String>,
}

impl Default for StructuredNotes {
    fn default() -> (r: Self)
        ensures
            r.summary@.len() == 0,
            r.key_points@.len() == 0,
            r.decisions@.len() == 0,
            r.action_items@.len() == 0,
            r.open_questions@.len() == 0,
            r.transcript@.len() == 0,
            r.raw_notes is None,
    {
        StructuredNotes {
            summary: String::new(),
            key_points: Vec::new(),
            decisions: Vec::new(),
            action_items: Vec::new(),
            open_questions: Vec::new(),
            transcript: String::new(),
            raw_notes: None,
        }
    }
}

/// The markdown of the notes before the final polish.
pub open spec fn notes_source(n: &StructuredNotes) -> Seq<char> {
    match &n.raw_notes {
        Some(raw) => trim(raw@),
        None => trim(
            section("Summary"@, seq![n.summary@]) + section("Key Points"@, string_views(n.key_points@))
                + section("Decisions"@, string_views(n.decisions@)) + section(
                "Action Items"@,
                string_views(n.action_items@),
            ) + section("Open Questions"@, string_views(n.open_questions@)),
        ),
    }
}

impl StructuredNotes {
    /// The notes as polished markdown: the free-form notes when there are any, else the
    /// summary, key points, decisions, action items and open questions as sections.
    pub fn to_markdown(&self) -> (r: String)
        ensures
            r@ == polish(notes_source(self)),
    {
        let markdown = match &self.raw_notes {
            Some(raw) => {
                let rc = to_chars(raw.as_str());
                trimmed(&rc, CharClass::Whitespace)
            },
            None => {
                let mut out: Vec<char> = Vec::new();
                let summary = vec![self.summary.clone()];
                assert(string_views(summary@) =~= seq![self.summary@]);
                push_section(&mut out, "Summary", &summary);
                push_section(&mut out, "Key Points", &self.key_points);
                push_section(&mut out, "Decisions", &self.decisions);
                push_section(&mut out, "Action Items", &self.action_items);
                push_section(&mut out, "Open Questions", &self.open_questions);
                assert(out@ =~= section("Summary"@, seq![self.summary@]) + section(
                    "Key Points"@,
                    string_views(self.key_points@),
                ) + section("Decisions"@, string_views(self.decisions@)) + section(
                    "Action Items"@,
                    string_views(self.action_items@),
                ) + section("Open Questions"@, string_views(self.open_questions@)));
                trimmed(&out, CharClass::Whitespace)
            },
        };
        let p = polish_summary_markdown_chars(&markdown);
        from_chars(&p)
    }
}


/// Picks the speaker of a transcript segment.
pub trait SpeakerAttributionEngine: Send + Sync {
    fn assign_speaker(
        &self,
        lane: AudioLane,
        text: &str,
        segment_index: usize,
        previous: Option<&CanonicalSegment>,
    ) -> SpeakerLabel;
}

/// Turns live notes and the transcript into structured notes.
pub trait NotesSummarizer: Send + Sync {
    fn summarize(
        &self,
        live_notes: &str,
        segments: &[CanonicalSegment],
        title_hint: Option<&str>,
        template: SummaryTemplate,
    ) -> Result<StructuredNotes, String>;
}

} // verus!
