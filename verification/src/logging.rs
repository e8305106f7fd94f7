//! What the log says: where it is written, which switches turn tracing on, and the lines
//! of each event and block.
use vstd::prelude::*;
use crate::markdown::{lines, split_lines};
use crate::models::{join_path, path_join};
use crate::text::{
    append_vec, decimal, decimal_exec, from_chars, lower, to_chars, to_lower, trim, trimmed, views,
    CharClass,
};
use crate::ui::{header_value, sanitize_log_header_value};

verus! {

pub const DEFAULT_LOG_DIR: &'static str = "Library/Logs/Screamer";
pub const DEFAULT_LOG_FILE: &'static str = "screamer.log";
pub const LOG_FILE_ENV: &'static str = "SCREAMER_LOG_FILE";
pub const TRANSCRIPT_LOG_ENV: &'static str = "SCREAMER_LOG_TRANSCRIPTS";
pub const SAVE_VISION_SCREENSHOTS_ENV: &'static str = "SCREAMER_SAVE_VISION_SCREENSHOTS";
pub const VISION_VERBOSE_ENV: &'static str = "SCREAMER_VISION_VERBOSE";

/// A switch is on when its value, trimmed and in lower case, is `1`, `true`, `yes` or `on`.
pub open spec fn flag_on(value: Option<Seq<char>>) -> bool {
    match value {
        Some(v) => {
            let t = lower(trim(v));
            t == "1"@ || t == "true"@ || t == "yes"@ || t == "on"@
        },
        None => false,
    }
}

/// Whether the switch with this value (none when the variable is unset) is on.
pub fn env_flag(value: Option<&str>) -> (r: bool)
    ensures
        r == flag_on(crate::models::opt_str_view(value)),
{
    match value {
        Some(v) => {
            let c = to_chars(v);
            let t = trimmed(&c, CharClass::Whitespace);
            let l = to_lower(&t);
            let s = from_chars(&l);
            let x = s.as_str();
            proof {
                reveal_strlit("1");
                reveal_strlit("true");
                reveal_strlit("yes");
                reveal_strlit("on");
            }
            crate::text::str_eq(x, "1") || crate::text::str_eq(x, "true")
                || crate::text::str_eq(x, "yes") || crate::text::str_eq(x, "on")
        },
        None => false,
    }
}

/// Whether vision traces in detail, for the value of `SCREAMER_VISION_VERBOSE`.
pub fn vision_verbose_detailed(env_value: Option<&str>) -> (r: bool)
    ensures
        r == flag_on(crate::models::opt_str_view(env_value)),
{
    env_flag(env_value)
}

/// The log file: `SCREAMER_LOG_FILE` trimmed when it is set and not blank, else
/// `Library/Logs/Screamer/screamer.log` under the home directory, if there is one.
pub open spec fn log_path_of(env_value: Option<Seq<char>>, home: Option<Seq<char>>) -> Option<
    Seq<char>,
> {
    match env_value {
        Some(v) if trim(v).len() > 0 => Some(trim(v)),
        _ => match home {
            Some(h) => Some(path_join(path_join(h, DEFAULT_LOG_DIR@), DEFAULT_LOG_FILE@)),
            None => None,
        },
    }
}

pub fn active_log_path(log_file_env: Option<&str>, home_dir: Option<&str>) -> (r: Option<String>)
    ensures
        crate::markdown::opt_string_view(&r) == log_path_of(
            crate::models::opt_str_view(log_file_env),
            crate::models::opt_str_view(home_dir),
        ),
{
    if let Some(v) = log_file_env {
        let c = to_chars(v);
        let t = trimmed(&c, CharClass::Whitespace);
        if t.len() > 0 {
            return Some(from_chars(&t));
        }
    }
    match home_dir {
        Some(h) => {
            let dir = join_path(h, DEFAULT_LOG_DIR);
            Some(join_path(dir.as_str(), DEFAULT_LOG_FILE))
        },
        None => None,
    }
}

/// `[screamer][FLOW][STAGE] MESSAGE`.
pub open spec fn flow_line(flow: Seq<char>, stage: Seq<char>, message: Seq<char>) -> Seq<char> {
    "[screamer]["@ + flow + "]["@ + stage + "] "@ + message
}

/// The lines of a block's text, each indented by two spaces; a blank text is `(empty)`.
pub open spec fn block_lines(text: Seq<char>) -> Seq<Seq<char>> {
    if trim(text).len() == 0 {
        seq!["  (empty)"@]
    } else {
        lines(text).map_values(|l: Seq<char>| "  "@ + l)
    }
}

/// A block between its `BEGIN` and `END` lines.
pub open spec fn flow_block(flow: Seq<char>, stage: Seq<char>, text: Seq<char>) -> Seq<Seq<char>> {
    seq![flow_line(flow, stage, "BEGIN"@)] + block_lines(text) + seq![flow_line(flow, stage, "END"@)]
}

/// The line of a flow event.
pub fn log_flow_event(flow: &str, stage: &str, message: &str) -> (r: String)
    ensures
        r@ == flow_line(flow@, stage@, message@),
{
    let mut out = to_chars("[screamer][");
    append_vec(&mut out, &to_chars(flow));
    append_vec(&mut out, &to_chars("]["));
    append_vec(&mut out, &to_chars(stage));
    append_vec(&mut out, &to_chars("] "));
    append_vec(&mut out, &to_chars(message));
    proof {
        reveal_strlit("[screamer][");
        reveal_strlit("][");
        reveal_strlit("] ");
    }
    assert(out@ =~= flow_line(flow@, stage@, message@));
    from_chars(&out)
}

fn indented(line: &Vec<char>) -> (r: String)
    ensures
        r@ == "  "@ + line@,
{
    let mut out = to_chars("  ");
    append_vec(&mut out, line);
    from_chars(&out)
}

/// The lines of a flow block.
pub fn log_flow_block(flow: &str, stage: &str, text: &str) -> (r: Vec<String>)
    ensures
        r@.map_values(|s: String| s@) == flow_block(flow@, stage@, text@),
{
    let mut out: Vec<String> = Vec::new();
    out.push(log_flow_event(flow, stage, "BEGIN"));
    let c = to_chars(text);
    let t = trimmed(&c, CharClass::Whitespace);
    let ghost body = block_lines(text@);
    if t.len() == 0 {
        out.push(from_chars(&to_chars("  (empty)")));
        assert(out@.map_values(|s: String| s@) =~= seq![flow_line(flow@, stage@, "BEGIN"@)]
            + body);
    } else {
        let ls = split_lines(&c);
        let ghost lv = lines(text@);
        assert(views(ls@) == lv);
        for i in 0..ls.len()
            invariant
                views(ls@) == lv,
                body == lv.map_values(|l: Seq<char>| "  "@ + l),
                out@.map_values(|s: String| s@) == seq![flow_line(flow@, stage@, "BEGIN"@)]
                    + body.take(i as int),
        {
            let ghost prev = out@;
            let line = indented(&ls[i]);
            assert(ls@[i as int]@ == lv[i as int]);
            assert(body[i as int] == "  "@ + lv[i as int]);
            out.push(line);
            assert(out@.map_values(|s: String| s@) =~= prev.map_values(|s: String| s@).push(
                body[i as int],
            ));
            assert(body.take(i + 1) =~= body.take(i as int).push(body[i as int]));
            assert(out@.map_values(|s: String| s@) =~= seq![flow_line(flow@, stage@, "BEGIN"@)]
                + body.take(i + 1));
        }
        assert(body.take(ls.len() as int) =~= body);
    }
    let ghost before = out@.map_values(|s: String| s@);
    out.push(log_flow_event(flow, stage, "END"));
    assert(out@.map_values(|s: String| s@) =~= before.push(flow_line(flow@, stage@, "END"@)));
    assert(out@.map_values(|s: String| s@) =~= flow_block(flow@, stage@, text@));
    out
}

/// A vision event line, written only when vision traces in detail.
pub fn log_vision_event(verbose: bool, stage: &str, message: &str) -> (r: Option<String>)
    ensures
        verbose ==> (r matches Some(s) && s@ == flow_line("vision"@, stage@, message@)),
        !verbose ==> r is None,
{
    if verbose {
        Some(log_flow_event("vision", stage, message))
    } else {
        None
    }
}

/// A highlight event line, written only when vision traces in detail.
pub fn log_highlight_event(verbose: bool, stage: &str, message: &str) -> (r: Option<String>)
    ensures
        verbose ==> (r matches Some(s) && s@ == flow_line("highlight"@, stage@, message@)),
        !verbose ==> r is None,
{
    if verbose {
        Some(log_flow_event("highlight", stage, message))
    } else {
        None
    }
}

/// The lines of a vision block, none unless vision traces in detail.
pub fn log_vision_block(verbose: bool, stage: &str, text: &str) -> (r: Vec<String>)
    ensures
        verbose ==> r@.map_values(|s: String| s@) == flow_block("vision"@, stage@, text@),
        !verbose ==> r@.len() == 0,
{
    if verbose {
        log_flow_block("vision", stage, text)
    } else {
        Vec::new()
    }
}

/// `[screamer] LABEL: TEXT`, written only when transcripts are logged.
pub fn log_transcript(enabled: bool, label: &str, text: &str) -> (r: Option<String>)
    ensures
        enabled ==> (r matches Some(s) && s@ == "[screamer] "@ + label@ + ": "@ + text@),
        !enabled ==> r is None,
{
    if !enabled {
        return None;
    }
    let mut out = to_chars("[screamer] ");
    append_vec(&mut out, &to_chars(label));
    append_vec(&mut out, &to_chars(": "));
    append_vec(&mut out, &to_chars(text));
    assert(out@ =~= "[screamer] "@ + label@ + ": "@ + text@);
    Some(from_chars(&out))
}

/// The lines of a block's text, as `block_lines` says.
fn block_lines_exec(text: &str) -> (r: Vec<String>)
    ensures
        r@.map_values(|s: String| s@) == block_lines(text@),
{
    let mut out: Vec<String> = Vec::new();
    let c = to_chars(text);
    let t = trimmed(&c, CharClass::Whitespace);
    let ghost body = block_lines(text@);
    if t.len() == 0 {
        out.push(from_chars(&to_chars("  (empty)")));
        assert(out@.map_values(|s: String| s@) =~= body);
        return out;
    }
    let ls = split_lines(&c);
    let ghost lv = lines(text@);
    for i in 0..ls.len()
        invariant
            views(ls@) == lv,
            body == lv.map_values(|l: Seq<char>| "  "@ + l),
            out@.map_values(|s: String| s@) == body.take(i as int),
    {
        let ghost prev = out@;
        let line = indented(&ls[i]);
        assert(ls@[i as int]@ == lv[i as int]);
        assert(body[i as int] == "  "@ + lv[i as int]);
        out.push(line);
        assert(out@.map_values(|s: String| s@) =~= prev.map_values(|s: String| s@).push(
            body[i as int],
        ));
        assert(body.take(i + 1) =~= body.take(i as int).push(body[i as int]));
    }
    assert(body.take(ls.len() as int) =~= body);
    out
}

/// A signed integer as `{}` writes it.
pub open spec fn signed_decimal(x: int) -> Seq<char> {
    if x < 0 {
        seq!['-'] + decimal((-x) as nat)
    } else {
        decimal(x as nat)
    }
}

pub fn signed_decimal_exec(x: i64) -> (r: Vec<char>)
    ensures
        r@ == signed_decimal(x as int),
{
    if x < 0 {
        let m: u64 = (0i128 - x as i128) as u64;
        let mut out = vec!['-'];
        append_vec(&mut out, &decimal_exec(m));
        out
    } else {
        decimal_exec(x as u64)
    }
}

/// `a.saturating_sub(b)` on `i64`.
pub open spec fn i64_sat_sub(a: i64, b: i64) -> int {
    let d = a - b;
    if d > i64::MAX {
        i64::MAX as int
    } else if d < i64::MIN {
        i64::MIN as int
    } else {
        d
    }
}

fn i64_sat_sub_exec(a: i64, b: i64) -> (r: i64)
    ensures
        r == i64_sat_sub(a, b),
{
    let d: i128 = a as i128 - b as i128;
    if d > i64::MAX as i128 {
        i64::MAX
    } else if d < i64::MIN as i128 {
        i64::MIN
    } else {
        d as i64
    }
}

fn labelled(label: &str, value: &Vec<char>) -> (r: String)
    ensures
        r@ == label@ + value@,
{
    let mut out = to_chars(label);
    append_vec(&mut out, value);
    from_chars(&out)
}

/// The report written when an ambient session ends: its facts, then its transcript and its
/// summary as blocks.
pub open spec fn report_lines(
    source: Seq<char>,
    session_id: i64,
    title: Seq<char>,
    state: Seq<char>,
    started_at_ms: i64,
    ended_at_ms: i64,
    summary_backend: Seq<char>,
    summary_template: Seq<char>,
    warning: Option<Seq<char>>,
    transcript_markdown: Seq<char>,
    structured_notes: Seq<char>,
) -> Seq<Seq<char>> {
    seq![
        "[screamer][ambient-report] BEGIN"@,
        "source: "@ + source,
        "session_id: "@ + signed_decimal(session_id as int),
        "state: "@ + state,
        "title: "@ + header_value(title),
        "started_at_ms: "@ + signed_decimal(started_at_ms as int),
        "ended_at_ms: "@ + signed_decimal(ended_at_ms as int),
        "duration_ms: "@ + signed_decimal(i64_sat_sub(ended_at_ms, started_at_ms)),
        "summary_backend: "@ + header_value(summary_backend),
        "summary_template: "@ + header_value(summary_template),
        "warning: "@ + match warning {
            Some(w) => header_value(w),
            None => "none"@,
        },
        "transcript_chars: "@ + decimal(transcript_markdown.len()),
        "summary_chars: "@ + decimal(structured_notes.len()),
        "transcript:"@,
    ] + block_lines(transcript_markdown) + seq!["summary:"@] + block_lines(structured_notes) + seq![
        "[screamer][ambient-report] END"@,
    ]
}

pub fn log_ambient_session_report(
    source: &str,
    session_id: i64,
    title: &str,
    state: &str,
    started_at_ms: i64,
    ended_at_ms: i64,
    summary_backend: &str,
    summary_template: &str,
    warning: Option<&str>,
    transcript_markdown: &str,
    structured_notes: &str,
) -> (r: Vec<String>)
    ensures
        r@.map_values(|s: String| s@) == report_lines(
            source@,
            session_id,
            title@,
            state@,
            started_at_ms,
            ended_at_ms,
            summary_backend@,
            summary_template@,
            crate::models::opt_str_view(warning),
            transcript_markdown@,
            structured_notes@,
        ),
{
    let mut out: Vec<String> = Vec::new();
    out.push("[screamer][ambient-report] BEGIN".to_string());
    out.push(labelled("source: ", &to_chars(source)));
    out.push(labelled("session_id: ", &signed_decimal_exec(session_id)));
    out.push(labelled("state: ", &to_chars(state)));
    out.push(labelled("title: ", &to_chars(sanitize_log_header_value(title).as_str())));
    out.push(labelled("started_at_ms: ", &signed_decimal_exec(started_at_ms)));
    out.push(labelled("ended_at_ms: ", &signed_decimal_exec(ended_at_ms)));
    out.push(labelled("duration_ms: ", &signed_decimal_exec(i64_sat_sub_exec(ended_at_ms, started_at_ms))));
    out.push(
        labelled("summary_backend: ", &to_chars(sanitize_log_header_value(summary_backend).as_str())),
    );
    out.push(
        labelled(
            "summary_template: ",
            &to_chars(sanitize_log_header_value(summary_template).as_str()),
        ),
    );
    let w = match warning {
        Some(w) => sanitize_log_header_value(w),
        None => "none".to_string(),
    };
    out.push(labelled("warning: ", &to_chars(w.as_str())));
    let tc = to_chars(transcript_markdown);
    let sc = to_chars(structured_notes);
    out.push(labelled("transcript_chars: ", &decimal_exec(tc.len() as u64)));
    out.push(labelled("summary_chars: ", &decimal_exec(sc.len() as u64)));
    out.push("transcript:".to_string());
    let ghost head = out@.map_values(|s: String| s@);
    let mut t = block_lines_exec(transcript_markdown);
    let ghost tb = t@.map_values(|s: String| s@);
    out.append(&mut t);
    assert(out@.map_values(|s: String| s@) =~= head + tb);
    out.push("summary:".to_string());
    let ghost mid = out@.map_values(|s: String| s@);
    assert(mid =~= head + tb + seq!["summary:"@]);
    let mut n = block_lines_exec(structured_notes);
    let ghost nb = n@.map_values(|s: String| s@);
    out.append(&mut n);
    assert(out@.map_values(|s: String| s@) =~= mid + nb);
    let ghost before_end = out@.map_values(|s: String| s@);
    out.push("[screamer][ambient-report] END".to_string());
    assert(out@.map_values(|s: String| s@) =~= before_end.push("[screamer][ambient-report] END"@));
    assert(out@.map_values(|s: String| s@) =~= report_lines(
        source@,
        session_id,
        title@,
        state@,
        started_at_ms,
        ended_at_ms,
        summary_backend@,
        summary_template@,
        crate::models::opt_str_view(warning),
        transcript_markdown@,
        structured_notes@,
    ));
    out
}

/// The file name of a saved copy of a screenshot sent for vision: the time, the process,
/// the sequence number, then the provider and the stage as safe tokens.
pub fn vision_debug_file_name(ms: u64, pid: u32, seq: u64, provider: &str, pipeline_stage: &str) -> (r:
    String)
    ensures
        r@ == "vision-"@ + decimal(ms as nat) + "-"@ + decimal(pid as nat) + "-"@ + decimal(
            seq as nat,
        ) + "-"@ + provider@.map_values(|c: char| crate::ui::slug_char(c)) + "-"@
            + pipeline_stage@.map_values(|c: char| crate::ui::slug_char(c)) + ".png"@,
{
    let mut out = to_chars("vision-");
    append_vec(&mut out, &decimal_exec(ms));
    append_vec(&mut out, &to_chars("-"));
    append_vec(&mut out, &decimal_exec(pid as u64));
    append_vec(&mut out, &to_chars("-"));
    append_vec(&mut out, &decimal_exec(seq));
    append_vec(&mut out, &to_chars("-"));
    append_vec(&mut out, &to_chars(crate::ui::slugify_token(provider).as_str()));
    append_vec(&mut out, &to_chars("-"));
    append_vec(&mut out, &to_chars(crate::ui::slugify_token(pipeline_stage).as_str()));
    append_vec(&mut out, &to_chars(".png"));
    from_chars(&out)
}

} // verus!
