use screamer::session::{format_live_transcript, LIVE_TRANSCRIPT_MAX_CHARS};

#[test]
fn live_transcript_formatting_keeps_recent_suffix() {
    let input = "alpha ".repeat(64);
    let formatted = format_live_transcript(&input);

    assert!(formatted.starts_with("..."));
    assert!(formatted.ends_with("alpha"));
    assert!(formatted.chars().count() <= LIVE_TRANSCRIPT_MAX_CHARS + 3);
}
