//! Text shown in the session list, the session view and the logs.
use vstd::prelude::*;
use crate::ambient::{seg_views, speaker_index, take_chars, take_chars_exec, AmbientSessionState, CanonicalSegment, SegmentView, SummaryTemplate};
use crate::store::{SessionDetail, SessionSummary};
use crate::text::{
    append_vec, clone_chars, collapse, collapse_spaces, contains, contains_exec, decimal,
    decimal_exec, from_chars, join, join_vecs, lower, slice_vec, starts_with, starts_with_exec,
    to_chars, to_lower, trim, trimmed, views, CharClass, chars_eq,
};

verus! {

/// `compact_sidebar_text`: the text with its whitespace collapsed, cut to `max_chars`
/// characters and trimmed.
pub open spec fn compact_text(text: Seq<char>, max_chars: int) -> Seq<char> {
    let c = trim(collapse(text));
    if c.len() == 0 {
        Seq::empty()
    } else {
        trim(take_chars(c, max_chars))
    }
}

pub fn compact_sidebar_text_chars(text: &Vec<char>, max_chars: usize) -> (r: Vec<char>)
    ensures
        r@ == compact_text(text@, max_chars as int),
{
    let c0 = collapse_spaces(text);
    let c = trimmed(&c0, CharClass::Whitespace);
    if c.len() == 0 {
        return Vec::new();
    }
    let t = take_chars_exec(&c, max_chars);
    trimmed(&t, CharClass::Whitespace)
}

pub fn compact_sidebar_text(text: &str, max_chars: usize) -> (r: String)
    ensures
        r@ == compact_text(text@, max_chars as int),
{
    let t = to_chars(text);
    let r = compact_sidebar_text_chars(&t, max_chars);
    from_chars(&r)
}

/// `display_session_title`: the title without a leading speaker tag, or "Ambient Session".
pub open spec fn session_title(text: Seq<char>) -> Seq<char> {
    let t = trim(crate::store::strip_speaker_prefix(collapse(text)));
    if t.len() == 0 {
        "Ambient Session"@
    } else {
        t
    }
}

pub fn display_session_title(text: &str) -> (r: String)
    ensures
        r@ == session_title(text@),
{
    let tc = to_chars(text);
    let c = collapse_spaces(&tc);
    let s = crate::store::strip_speaker_prefix_exec(&c);
    let t = trimmed(&s, CharClass::Whitespace);
    if t.len() == 0 {
        "Ambient Session".to_string()
    } else {
        from_chars(&t)
    }
}

/// `session_preview_line`: the compacted preview, or "No notes yet" when it is empty or
/// says so in any letter case.
pub open spec fn preview_line(live_notes_preview: Seq<char>) -> Seq<char> {
    let p = compact_text(live_notes_preview, 120);
    if p.len() == 0 || lower(p) == lower("no notes yet"@) {
        "No notes yet"@
    } else {
        p
    }
}

pub fn session_preview_line(session: &SessionSummary) -> (r: String)
    ensures
        r@ == preview_line(session.live_notes_preview@),
{
    let t = to_chars(session.live_notes_preview.as_str());
    let p = compact_sidebar_text_chars(&t, 120);
    let pl = to_lower(&p);
    let nl = to_lower(&to_chars("no notes yet"));
    if p.len() == 0 || chars_eq(&pl, &nl) {
        "No notes yet".to_string()
    } else {
        from_chars(&p)
    }
}

pub open spec fn status_name(state: AmbientSessionState) -> Seq<char> {
    match state {
        AmbientSessionState::Idle => "Idle"@,
        AmbientSessionState::Recording => "Recording"@,
        AmbientSessionState::Processing => "Processing"@,
        AmbientSessionState::Completed => "Completed"@,
        AmbientSessionState::Failed => "Failed"@,
    }
}

pub fn status_label(state: AmbientSessionState) -> (r: &'static str)
    ensures
        r@ == status_name(state),
{
    match state {
        AmbientSessionState::Idle => "Idle",
        AmbientSessionState::Recording => "Recording",
        AmbientSessionState::Processing => "Processing",
        AmbientSessionState::Completed => "Completed",
        AmbientSessionState::Failed => "Failed",
    }
}

/// The lower-case state name written to the logs.
pub fn ambient_state_label(state: AmbientSessionState) -> (r: &'static str)
    ensures
        r@ == crate::store::state_db(state),
{
    match state {
        AmbientSessionState::Idle => "idle",
        AmbientSessionState::Recording => "recording",
        AmbientSessionState::Processing => "processing",
        AmbientSessionState::Completed => "completed",
        AmbientSessionState::Failed => "failed",
    }
}

/// Whole seconds from `timestamp_ms` to `now_ms`, none when in the future.
pub open spec fn elapsed_seconds(timestamp_ms: i64, now_ms: i64) -> int {
    if now_ms - timestamp_ms > 0 {
        (now_ms - timestamp_ms) / 1000
    } else {
        0
    }
}

/// `format_relative_time`: "Just now" within a minute, then minutes, hours and days ago.
pub open spec fn relative_time(timestamp_ms: i64, now_ms: i64) -> Seq<char> {
    let d = elapsed_seconds(timestamp_ms, now_ms);
    if d <= 59 {
        "Just now"@
    } else if d <= 3599 {
        decimal((d / 60) as nat) + "m ago"@
    } else if d <= 86399 {
        decimal((d / 3600) as nat) + "h ago"@
    } else {
        decimal((d / 86400) as nat) + "d ago"@
    }
}

pub fn format_relative_time(timestamp_ms: i64, now_ms: i64) -> (r: String)
    requires
        i64::MIN <= now_ms - timestamp_ms <= i64::MAX,
    ensures
        r@ == relative_time(timestamp_ms, now_ms),
{
    let diff = now_ms - timestamp_ms;
    let d: u64 = if diff > 0 {
        (diff / 1000) as u64
    } else {
        0
    };
    if d <= 59 {
        return "Just now".to_string();
    }
    let (n, unit) = if d <= 3599 {
        (d / 60, "m ago")
    } else if d <= 86399 {
        (d / 3600, "h ago")
    } else {
        (d / 86400, "d ago")
    };
    let mut out = decimal_exec(n);
    append_vec(&mut out, &to_chars(unit));
    from_chars(&out)
}

/// `session_meta_line`: "◉ Processing…" while processing, else the state and how long ago
/// the session changed.
pub open spec fn meta_line(state: AmbientSessionState, updated_at_ms: i64, now_ms: i64) -> Seq<char> {
    if state == AmbientSessionState::Processing {
        "◉ Processing…"@
    } else {
        status_name(state) + " · "@ + relative_time(updated_at_ms, now_ms)
    }
}

pub fn session_meta_line(session: &SessionSummary, now_ms: i64) -> (r: String)
    requires
        i64::MIN <= now_ms - session.updated_at_ms <= i64::MAX,
    ensures
        r@ == meta_line(session.state, session.updated_at_ms, now_ms),
{
    if session.state == AmbientSessionState::Processing {
        return "◉ Processing…".to_string();
    }
    let mut out = to_chars(status_label(session.state));
    append_vec(&mut out, &to_chars(" · "));
    let rel = format_relative_time(session.updated_at_ms, now_ms);
    append_vec(&mut out, &to_chars(rel.as_str()));
    from_chars(&out)
}

pub open spec fn pad2(d: Seq<char>) -> Seq<char> {
    if d.len() < 2 {
        seq!['0'] + d
    } else {
        d
    }
}

/// `format_elapsed`: `MM:SS`, minutes and seconds padded to two digits.
pub open spec fn elapsed_text(elapsed_ms: u64) -> Seq<char> {
    let total = elapsed_ms / 1000;
    pad2(decimal((total / 60) as nat)) + seq![':'] + pad2(decimal((total % 60) as nat))
}

pub fn pad2_exec(d: Vec<char>) -> (r: Vec<char>)
    ensures
        r@ == pad2(d@),
{
    if d.len() < 2 {
        let mut out = vec!['0'];
        append_vec(&mut out, &d);
        out
    } else {
        d
    }
}

pub fn format_elapsed(elapsed_ms: u64) -> (r: String)
    ensures
        r@ == elapsed_text(elapsed_ms),
{
    let total = elapsed_ms / 1000;
    let mut out = pad2_exec(decimal_exec(total / 60));
    out.push(':');
    append_vec(&mut out, &pad2_exec(decimal_exec(total % 60)));
    from_chars(&out)
}

/// `append_warning`: the incoming warning after the existing ones (unless they already
/// hold it), one per line.
pub open spec fn warning_after(existing: Option<Seq<char>>, incoming: Seq<char>) -> Seq<char> {
    match existing {
        Some(e) if trim(e).len() > 0 => if contains(trim(e), incoming) {
            trim(e)
        } else {
            trim(e) + seq!['\n'] + incoming
        },
        _ => incoming,
    }
}

pub fn append_warning(existing: Option<&str>, incoming: &str) -> (r: String)
    ensures
        r@ == warning_after(crate::models::opt_str_view(existing), incoming@),
{
    let inc = to_chars(incoming);
    match existing {
        Some(e) => {
            let ec = to_chars(e);
            let t = trimmed(&ec, CharClass::Whitespace);
            if t.len() > 0 {
                if contains_exec(&t, &inc) {
                    return from_chars(&t);
                }
                let mut out = t;
                out.push('\n');
                append_vec(&mut out, &inc);
                return from_chars(&out);
            }
            from_chars(&inc)
        },
        None => from_chars(&inc),
    }
}

/// `updated_existing_tail`: the segment of `current` at the position of the last previous
/// segment, when it differs from it.
pub open spec fn changed_tail(previous: Seq<SegmentView>, current: Seq<SegmentView>) -> Option<int> {
    if previous.len() == 0 || current.len() < previous.len() {
        None
    } else if previous.last() != current[previous.len() - 1] {
        Some(previous.len() - 1)
    } else {
        None
    }
}

pub fn updated_existing_tail<'a>(
    previous: &'a [CanonicalSegment],
    current: &'a [CanonicalSegment],
) -> (r: Option<&'a CanonicalSegment>)
    ensures
        match changed_tail(seg_views(previous@), seg_views(current@)) {
            Some(i) => r matches Some(s) && s@ == seg_views(current@)[i],
            None => r is None,
        },
{
    if previous.len() == 0 || current.len() < previous.len() {
        return None;
    }
    let index = previous.len() - 1;
    if crate::pipeline::same_segment(&previous[index], &current[index]) {
        None
    } else {
        Some(&current[index])
    }
}

/// What the session view shows of a session.
pub struct AmbientSessionSnapshot {
    pub id: i64,
    pub title: String,
    pub state: AmbientSessionState,
    pub started_at_ms: i64,
    pub ended_at_ms: Option<i64>,
    pub live_notes: String,
    pub structured_notes: String,
    pub transcript_markdown: String,
    pub scratch_pad: String,
    pub segments: Vec<CanonicalSegment>,
    pub warning: Option<String>,
    pub microphone_enabled: bool,
    pub system_audio_requested: bool,
    pub system_audio_active: bool,
    pub summary_backend_label: String,
    pub summary_template: SummaryTemplate,
    pub elapsed_ms: u64,
}

/// `a.saturating_sub(b) as u64` on milliseconds.
pub open spec fn elapsed_between(start: i64, end: i64) -> u64 {
    let d = end - start;
    let s = if d > i64::MAX {
        i64::MAX as int
    } else if d < i64::MIN {
        i64::MIN as int
    } else {
        d
    };
    (s as i64) as u64
}

pub fn saturating_elapsed(start: i64, end: i64) -> (r: u64)
    ensures
        r == elapsed_between(start, end),
{
    let d: i128 = end as i128 - start as i128;
    let s: i64 = if d > i64::MAX as i128 {
        i64::MAX
    } else if d < i64::MIN as i128 {
        i64::MIN
    } else {
        d as i64
    };
    s as u64
}

/// `snapshot_from_detail`: a stored session as the view shows it; a session that has not
/// ended has run until `now_ms`.
pub fn snapshot_from_detail(detail: SessionDetail, now_ms: i64) -> (r: AmbientSessionSnapshot)
    ensures
        r.id == detail.id,
        r.title@ == detail.title@,
        r.state == detail.state,
        r.started_at_ms == detail.started_at_ms,
        r.ended_at_ms == detail.ended_at_ms,
        r.live_notes@ == detail.live_notes@,
        r.structured_notes@ == detail.structured_notes@,
        r.transcript_markdown@ == detail.transcript_markdown@,
        r.scratch_pad@ == detail.scratch_pad@,
        seg_views(r.segments@) == seg_views(detail.segments@),
        r.warning is None,
        r.microphone_enabled,
        r.system_audio_requested,
        !r.system_audio_active,
        r.summary_backend_label@ == "Bundled Gemma 3 1B"@,
        r.summary_template == detail.summary_template,
        r.elapsed_ms == elapsed_between(
            detail.started_at_ms,
            match detail.ended_at_ms {
                Some(e) => e,
                None => now_ms,
            },
        ),
{
    let end = match detail.ended_at_ms {
        Some(e) => e,
        None => now_ms,
    };
    let elapsed_ms = saturating_elapsed(detail.started_at_ms, end);
    AmbientSessionSnapshot {
        id: detail.id,
        title: detail.title,
        state: detail.state,
        started_at_ms: detail.started_at_ms,
        ended_at_ms: detail.ended_at_ms,
        live_notes: detail.live_notes,
        structured_notes: detail.structured_notes,
        transcript_markdown: detail.transcript_markdown,
        scratch_pad: detail.scratch_pad,
        segments: detail.segments,
        warning: None,
        microphone_enabled: true,
        system_audio_requested: true,
        system_audio_active: false,
        summary_backend_label: "Bundled Gemma 3 1B".to_string(),
        summary_template: detail.summary_template,
        elapsed_ms,
    }
}

pub open spec fn slug_char(c: char) -> char {
    if crate::text::ascii_alphanumeric(c) || c == '_' {
        c
    } else {
        '_'
    }
}

/// `slugify_token`: ASCII letters, digits and underscores kept, anything else an
/// underscore.
pub fn slugify_token(s: &str) -> (r: String)
    ensures
        r@ == s@.map_values(|c: char| slug_char(c)),
{
    let t = to_chars(s);
    let mut out: Vec<char> = Vec::new();
    for i in 0..t.len()
        invariant
            out@ == t@.take(i as int).map_values(|c: char| slug_char(c)),
    {
        let c = t[i];
        let keep = ('a' <= c && c <= 'z') || ('A' <= c && c <= 'Z') || ('0' <= c && c <= '9')
            || c == '_';
        out.push(if keep { c } else { '_' });
        assert(t@.take(i + 1).map_values(|c: char| slug_char(c)) =~= t@.take(i as int).map_values(|c: char| slug_char(c)).push(slug_char(c)));
    }
    assert(t@.take(t.len() as int) =~= t@);
    from_chars(&out)
}

/// `sanitize_log_header_value`: the non-blank lines, trimmed, on one line.
pub open spec fn header_value(v: Seq<char>) -> Seq<char> {
    join(crate::ambient::filled_lines(crate::markdown::lines(v)), seq![' '])
}

pub fn sanitize_log_header_value(value: &str) -> (r: String)
    ensures
        r@ == header_value(value@),
{
    let v = to_chars(value);
    let ls = crate::markdown::split_lines(&v);
    let ghost lv = views(ls@);
    let mut parts: Vec<Vec<char>> = Vec::new();
    for i in 0..ls.len()
        invariant
            lv == views(ls@),
            views(parts@) == crate::ambient::filled_lines(lv.take(i as int)),
    {
        assert(lv.take(i + 1).drop_last() =~= lv.take(i as int));
        let t = trimmed(&ls[i], CharClass::Whitespace);
        if t.len() > 0 {
            proof {
                crate::text::lemma_views_push(parts@, t);
            }
            parts.push(t);
        }
    }
    assert(lv.take(ls.len() as int) =~= lv);
    let sep = vec![' '];
    assert(sep@ =~= seq![' ']);
    let j = join_vecs(&parts, &sep);
    assert(parts@.map_values(|p: Vec<char>| p@) =~= views(parts@));
    from_chars(&j)
}

pub open spec fn signature_part(s: SegmentView) -> Seq<char> {
    decimal(s.id as nat) + seq![':'] + decimal(speaker_index(s.speaker) as nat) + seq![':']
        + decimal((vstd::utf8::encode_utf8(s.text).len() as usize) as nat) + seq![';']
}

pub open spec fn signature_upto(segs: Seq<SegmentView>, n: int) -> Seq<char>
    decreases n,
{
    if n <= 0 {
        Seq::empty()
    } else {
        signature_upto(segs, n - 1) + signature_part(segs[n - 1])
    }
}

/// `segment_content_signature`: `id:speaker:bytes;` for each segment, so that a change of
/// any segment's text length, speaker or id changes it.
pub fn segment_content_signature(segments: &[CanonicalSegment]) -> (r: String)
    ensures
        r@ == signature_upto(seg_views(segments@), segments@.len() as int),
{
    let ghost sv = seg_views(segments@);
    let mut out: Vec<char> = Vec::new();
    for i in 0..segments.len()
        invariant
            sv == seg_views(segments@),
            out@ == signature_upto(sv, i as int),
    {
        let s = &segments[i];
        let ghost before = out@;
        append_vec(&mut out, &decimal_exec(s.id));
        out.push(':');
        append_vec(&mut out, &decimal_exec(s.speaker.index() as u64));
        out.push(':');
        let bytes = s.text.as_str().len();
        append_vec(&mut out, &decimal_exec(bytes as u64));
        out.push(';');
        assert(out@ =~= before + signature_part(sv[i as int]));
    }
    from_chars(&out)
}

/// `menu_model_title`: the label of a known Whisper model, else the id itself.
pub open spec fn model_title(id: Seq<char>) -> Seq<char> {
    let k = crate::config::index_of(crate::config::model_ids(), id);
    if k == 0 {
        "Tiny"@
    } else if k == 1 {
        "Base"@
    } else if k == 2 {
        "Small"@
    } else {
        id
    }
}

pub fn menu_model_title(id: &str) -> (r: String)
    ensures
        r@ == model_title(id@),
{
    let table = crate::config::models();
    let mut i: usize = 0;
    proof {
        crate::config::lemma_index_of(crate::config::model_ids(), id@);
    }
    while i < table.len()
        invariant
            table@.len() == 3,
            forall|k: int| 0 <= k < 3 ==> (#[trigger] table@[k]).id@ == crate::config::model_ids()[k],
            table@[0].label@ == "Tiny"@ && table@[1].label@ == "Base"@ && table@[2].label@ == "Small"@,
            i <= 3,
            forall|k: int| 0 <= k < i ==> crate::config::model_ids()[k] != id@,
            crate::config::index_of(crate::config::model_ids(), id@) >= 0 ==> crate::config::index_of(crate::config::model_ids(), id@) < 3
                && crate::config::model_ids()[crate::config::index_of(crate::config::model_ids(), id@)] == id@,
            forall|k: int| 0 <= k < crate::config::index_of(crate::config::model_ids(), id@) ==> crate::config::model_ids()[k] != id@,
            crate::config::index_of(crate::config::model_ids(), id@) >= -1,
            crate::config::index_of(crate::config::model_ids(), id@) >= 0 <==> crate::config::model_ids().contains(id@),
        decreases 3 - i,
    {
        if crate::text::str_eq(table[i].id, id) {
            assert(crate::config::model_ids()[i as int] == id@);
            assert(crate::config::model_ids().contains(id@));
            return table[i].label.to_string();
        }
        i = i + 1;
    }
    id.to_string()
}

/// Shown when the app cannot start.
pub struct AppInitError {
    pub title: &'static str,
    pub message: String,
}

/// The inputs line of the session view.
pub open spec fn inputs_text(microphone: bool, requested: bool, active: bool) -> Seq<char> {
    "Inputs: "@ + (if microphone {
        "microphone"@
    } else {
        "off"@
    }) + (if requested {
        if active {
            " + system output"@
        } else {
            " + system output (requested)"@
        }
    } else {
        ""@
    })
}

pub fn session_inputs_line(microphone: bool, requested: bool, active: bool) -> (r: String)
    ensures
        r@ == inputs_text(microphone, requested, active),
{
    let mut out = to_chars("Inputs: ");
    if microphone {
        append_vec(&mut out, &to_chars("microphone"));
    } else {
        append_vec(&mut out, &to_chars("off"));
    }
    if requested {
        if active {
            append_vec(&mut out, &to_chars(" + system output"));
        } else {
            append_vec(&mut out, &to_chars(" + system output (requested)"));
        }
    }
    proof {
        reveal_strlit("");
    }
    assert(out@ =~= inputs_text(microphone, requested, active));
    from_chars(&out)
}

/// The processing label: its dots turn every 400 ms, from none to three.
pub open spec fn processing_text(elapsed_ms: u64) -> Seq<char> {
    let tick = (elapsed_ms / 400) % 4;
    if tick == 0 {
        "Processing session"@
    } else if tick == 1 {
        "Processing session."@
    } else if tick == 2 {
        "Processing session.."@
    } else {
        "Processing session..."@
    }
}

pub fn processing_label(elapsed_ms: u64) -> (r: &'static str)
    ensures
        r@ == processing_text(elapsed_ms),
{
    let tick = (elapsed_ms / 400) % 4;
    if tick == 0 {
        "Processing session"
    } else if tick == 1 {
        "Processing session."
    } else if tick == 2 {
        "Processing session.."
    } else {
        "Processing session..."
    }
}

/// Which controls of the session view are shown or usable.
#[derive(Clone, Copy, Debug, PartialEq, Eq, Structural)]
pub struct SessionControls {
    /// The stop button, shown and enabled while recording.
    pub stop_visible: bool,
    /// The reprocess button, shown and enabled once the session has finished.
    pub reprocess_visible: bool,
    /// The overlay over the transcript while processing.
    pub processing_overlay_visible: bool,
    /// The scratch pad, read-only while processing.
    pub scratch_pad_editable: bool,
    /// The summary template menu, usable while recording.
    pub template_popup_enabled: bool,
}

pub fn session_controls(state: AmbientSessionState) -> (r: SessionControls)
    ensures
        r.stop_visible == (state == AmbientSessionState::Recording),
        r.reprocess_visible == (state == AmbientSessionState::Completed || state
            == AmbientSessionState::Failed),
        r.processing_overlay_visible == (state == AmbientSessionState::Processing),
        r.scratch_pad_editable == (state != AmbientSessionState::Processing),
        r.template_popup_enabled == (state == AmbientSessionState::Recording),
{
    let recording = matches!(state, AmbientSessionState::Recording);
    let processing = matches!(state, AmbientSessionState::Processing);
    let finished = matches!(state, AmbientSessionState::Completed | AmbientSessionState::Failed);
    SessionControls {
        stop_visible: recording,
        reprocess_visible: finished,
        processing_overlay_visible: processing,
        scratch_pad_editable: !processing,
        template_popup_enabled: recording,
    }
}

/// The templates in the order of the template menu.
pub open spec fn template_order() -> Seq<SummaryTemplate> {
    seq![
        SummaryTemplate::General,
        SummaryTemplate::OneOnOne,
        SummaryTemplate::TeamMeeting,
        SummaryTemplate::StandUp,
    ]
}

/// The position of a template in the template menu.
pub fn summary_template_index(template: SummaryTemplate) -> (r: usize)
    ensures
        r < 4,
        template_order()[r as int] == template,
{
    let all = SummaryTemplate::all();
    let mut i: usize = 0;
    while i < all.len()
        invariant
            all@ == template_order(),
            i <= 4,
            forall|k: int| 0 <= k < i ==> all@[k] != template,
        decreases 4 - i,
    {
        if all[i] == template {
            return i;
        }
        i = i + 1;
    }
    proof {
        assert(match template {
            SummaryTemplate::General => all@[0] == template,
            SummaryTemplate::OneOnOne => all@[1] == template,
            SummaryTemplate::TeamMeeting => all@[2] == template,
            SummaryTemplate::StandUp => all@[3] == template,
        });
    }
    0
}

/// The banner and main button of the home view: the live session when there is one, else
/// an invitation to start one (or why system output is not captured, when it is not).
pub open spec fn home_banner_text(
    active: Option<(u64, Seq<char>)>,
    system_audio_supported: bool,
    reason: Seq<char>,
) -> (Seq<char>, Seq<char>) {
    match active {
        Some((elapsed_ms, backend)) => (
            "Session live now · "@ + elapsed_text(elapsed_ms) + " · "@ + backend,
            "Open live"@,
        ),
        None => if system_audio_supported {
            (
                "A fast local workspace for meetings, voice memos, and quick capture."@,
                "Start session"@,
            )
        } else {
            (reason, "Start session"@)
        },
    }
}

pub fn home_banner(
    active: Option<&AmbientSessionSnapshot>,
    system_audio_supported: bool,
    reason: &str,
) -> (r: (String, &'static str))
    ensures
        (r.0@, r.1@) == home_banner_text(
            match active {
                Some(s) => Some((s.elapsed_ms, s.summary_backend_label@)),
                None => None,
            },
            system_audio_supported,
            reason@,
        ),
{
    match active {
        Some(s) => {
            let mut out = to_chars("Session live now · ");
            append_vec(&mut out, &to_chars(format_elapsed(s.elapsed_ms).as_str()));
            append_vec(&mut out, &to_chars(" · "));
            append_vec(&mut out, &to_chars(s.summary_backend_label.as_str()));
            assert(out@ =~= "Session live now · "@ + elapsed_text(s.elapsed_ms) + " · "@
                + s.summary_backend_label@);
            (from_chars(&out), "Open live")
        },
        None => if system_audio_supported {
            (
                "A fast local workspace for meetings, voice memos, and quick capture.".to_string(),
                "Start session",
            )
        } else {
            (reason.to_string(), "Start session")
        },
    }
}

/// The dictation hint of the home view.
pub fn dictation_hint(hotkey_label: &str) -> (r: String)
    ensures
        r@ == "Hold "@ + hotkey_label@ + " to speak anywhere on your Mac."@,
{
    let mut out = to_chars("Hold ");
    append_vec(&mut out, &to_chars(hotkey_label));
    append_vec(&mut out, &to_chars(" to speak anywhere on your Mac."));
    assert(out@ =~= "Hold "@ + hotkey_label@ + " to speak anywhere on your Mac."@);
    from_chars(&out)
}

pub(crate) fn model_index(id: &str) -> (r: Option<usize>)
    ensures
        match r {
            Some(k) => k < 3 && crate::config::index_of(crate::config::model_ids(), id@) == k,
            None => crate::config::index_of(crate::config::model_ids(), id@) < 0,
        },
{
    let table = crate::config::models();
    let mut i: usize = 0;
    proof {
        crate::config::lemma_index_of(crate::config::model_ids(), id@);
    }
    while i < table.len()
        invariant
            table@.len() == 3,
            forall|k: int| 0 <= k < 3 ==> (#[trigger] table@[k]).id@ == crate::config::model_ids()[k],
            i <= 3,
            forall|k: int| 0 <= k < i ==> crate::config::model_ids()[k] != id@,
            crate::config::index_of(crate::config::model_ids(), id@) >= 0 ==> crate::config::index_of(crate::config::model_ids(), id@) < 3
                && crate::config::model_ids()[crate::config::index_of(crate::config::model_ids(), id@)] == id@,
            forall|k: int| 0 <= k < crate::config::index_of(crate::config::model_ids(), id@) ==> crate::config::model_ids()[k] != id@,
            crate::config::index_of(crate::config::model_ids(), id@) >= -1,
            crate::config::index_of(crate::config::model_ids(), id@) >= 0 <==> crate::config::model_ids().contains(id@),
        decreases 3 - i,
    {
        if crate::text::str_eq(table[i].id, id) {
            assert(crate::config::model_ids()[i as int] == id@);
            assert(crate::config::model_ids().contains(id@));
            return Some(i);
        }
        i = i + 1;
    }
    None
}

/// A model in the model menu: its label and size, marked when its file is not on disk; an
/// unknown model by its id.
pub open spec fn selectable_title(id: Seq<char>, downloaded: bool) -> Seq<char> {
    let k = crate::config::index_of(crate::config::model_ids(), id);
    if 0 <= k < 3 {
        let base = if k == 0 {
            "Tiny (75 MB)"@
        } else if k == 1 {
            "Base (142 MB)"@
        } else {
            "Small (466 MB)"@
        };
        if downloaded {
            base
        } else {
            base + " — Not Downloaded"@
        }
    } else {
        id
    }
}

pub fn model_menu_title(id: &str, downloaded: bool) -> (r: String)
    ensures
        r@ == selectable_title(id@, downloaded),
{
    match model_index(id) {
        None => id.to_string(),
        Some(k) => {
            let table = crate::config::models();
            let mut out = to_chars(table[k].label);
            append_vec(&mut out, &to_chars(" ("));
            append_vec(&mut out, &to_chars(table[k].size));
            append_vec(&mut out, &to_chars(")"));
            if !downloaded {
                append_vec(&mut out, &to_chars(" — Not Downloaded"));
            }
            proof {
                reveal_strlit("Tiny (75 MB)");
                reveal_strlit("Base (142 MB)");
                reveal_strlit("Small (466 MB)");
                reveal_strlit("Tiny");
                reveal_strlit("Base");
                reveal_strlit("Small");
                reveal_strlit("75 MB");
                reveal_strlit("142 MB");
                reveal_strlit("466 MB");
                reveal_strlit(" (");
                reveal_strlit(")");
            }
            assert(out@ =~= selectable_title(id@, downloaded));
            from_chars(&out)
        },
    }
}

/// The model menu title, marked when the model's file is found nowhere it is looked for.
pub fn selectable_model_title(id: &str, bundle_models_dir: Option<&str>) -> (r: String)
    ensures
        r@ == selectable_title(id@, true) || r@ == selectable_title(id@, false),
        crate::config::index_of(crate::config::model_ids(), id@) < 0 ==> r@ == id@,
{
    let downloaded = match model_index(id) {
        Some(_) => crate::models::find_model(id, bundle_models_dir).is_some(),
        None => false,
    };
    model_menu_title(id, downloaded)
}

/// The error shown when the configured Whisper model is found nowhere.
pub fn model_not_found_error(model: &str) -> (r: AppInitError)
    ensures
        r.title@ == "Model Not Found"@,
        r.message@ == "Could not find the whisper model 'ggml-"@ + model@
            + ".en.bin'.\n\nPlease run: ./download_model.sh "@ + model@
            + "\n\nThis will download the model to the models/ directory."@,
{
    let mut out = to_chars("Could not find the whisper model 'ggml-");
    append_vec(&mut out, &to_chars(model));
    append_vec(&mut out, &to_chars(".en.bin'.\n\nPlease run: ./download_model.sh "));
    append_vec(&mut out, &to_chars(model));
    append_vec(&mut out, &to_chars("\n\nThis will download the model to the models/ directory."));
    assert(out@ =~= "Could not find the whisper model 'ggml-"@ + model@
        + ".en.bin'.\n\nPlease run: ./download_model.sh "@ + model@
        + "\n\nThis will download the model to the models/ directory."@);
    AppInitError { title: "Model Not Found", message: from_chars(&out) }
}


/// How long the session list is kept before it is read again for the same search.
pub const SIDEBAR_REFRESH_MS: u64 = 500;

/// What identifies a listed session for the purpose of redrawing the list.
pub struct SessionSignature {
    pub id: i64,
    pub updated_at_ms: i64,
    pub title: String,
}

pub open spec fn signature_view(s: SessionSignature) -> (i64, i64, Seq<char>) {
    (s.id, s.updated_at_ms, s.title@)
}

pub open spec fn signature_views(v: Seq<SessionSignature>) -> Seq<(i64, i64, Seq<char>)> {
    v.map_values(|s: SessionSignature| signature_view(s))
}

pub open spec fn summary_signatures(v: Seq<SessionSummary>) -> Seq<(i64, i64, Seq<char>)> {
    v.map_values(|s: SessionSummary| (s.id, s.updated_at_ms, s.title@))
}

/// The signature of each listed session: its id, when it was last updated, and its title.
pub fn session_signatures(sessions: &Vec<SessionSummary>) -> (r: Vec<SessionSignature>)
    ensures
        signature_views(r@) == summary_signatures(sessions@),
{
    let mut out: Vec<SessionSignature> = Vec::new();
    for i in 0..sessions.len()
        invariant
            signature_views(out@) == summary_signatures(sessions@).take(i as int),
    {
        let s = &sessions[i];
        let title = s.title.clone();
        let sig = SessionSignature { id: s.id, updated_at_ms: s.updated_at_ms, title };
        assert(signature_view(sig) == summary_signatures(sessions@)[i as int]);
        let ghost before = out@;
        out.push(sig);
        assert(signature_views(out@) =~= signature_views(before).push(signature_view(sig)));
        assert(summary_signatures(sessions@).take(i + 1) =~= summary_signatures(sessions@).take(
            i as int,
        ).push(summary_signatures(sessions@)[i as int]));
    }
    assert(summary_signatures(sessions@).take(sessions.len() as int) =~= summary_signatures(sessions@));
    out
}

/// The first step of refreshing the session list: the trimmed search text, which is read again
/// where it differs from the last one or where the list is at least half a second old; `None`
/// where the list stays as it is.
pub fn sidebar_query(last_query: &str, search: &str, ms_since_sync: u64) -> (r: Option<String>)
    ensures
        (trim(search@) != last_query@ || ms_since_sync >= SIDEBAR_REFRESH_MS) ==> (r matches Some(
            q,
        ) && q@ == trim(search@)),
        !(trim(search@) != last_query@ || ms_since_sync >= SIDEBAR_REFRESH_MS) ==> r is None,
{
    let t = from_chars(&trimmed(&to_chars(search), CharClass::Whitespace));
    if !crate::text::str_eq(t.as_str(), last_query) || ms_since_sync >= SIDEBAR_REFRESH_MS {
        Some(t)
    } else {
        None
    }
}

/// The second step: the list is drawn again where the search changed or the listed sessions
/// differ from the last drawn ones in id, update time or title.
pub fn sidebar_needs_redraw(
    query_changed: bool,
    last: &Vec<SessionSignature>,
    current: &Vec<SessionSignature>,
) -> (r: bool)
    ensures
        r == (query_changed || signature_views(last@) != signature_views(current@)),
{
    if query_changed {
        return true;
    }
    if last.len() != current.len() {
        assert(signature_views(last@).len() != signature_views(current@).len());
        return true;
    }
    for i in 0..last.len()
        invariant
            last.len() == current.len(),
            signature_views(last@).take(i as int) == signature_views(current@).take(i as int),
    {
        let a = &last[i];
        let b = &current[i];
        if a.id != b.id || a.updated_at_ms != b.updated_at_ms || !crate::text::str_eq(a.title.as_str(), b.title.as_str()) {
            assert(signature_views(last@)[i as int] != signature_views(current@)[i as int]);
            return true;
        }
        assert(signature_views(last@).take(i + 1) =~= signature_views(current@).take(i + 1)) by {
            assert(signature_views(last@).take(i + 1) =~= signature_views(last@).take(i as int).push(
                signature_views(last@)[i as int],
            ));
            assert(signature_views(current@).take(i + 1) =~= signature_views(current@).take(
                i as int,
            ).push(signature_views(current@)[i as int]));
        }
    }
    assert(signature_views(last@) =~= signature_views(last@).take(last.len() as int));
    assert(signature_views(current@) =~= signature_views(current@).take(current.len() as int));
    false
}

} // verus!
