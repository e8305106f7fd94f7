use screamer::speech::{prepare_spoken_text, MAX_SPOKEN_CHARS};

#[test]
fn prepares_markdownish_text_for_speech() {
    let text = "## Try this\n- Click **Settings**, then `Billing`.";

    assert_eq!(
        prepare_spoken_text(text),
        "Try this Click Settings, then Billing."
    );
}

#[test]
fn caps_unexpectedly_long_text() {
    let text = "a".repeat(MAX_SPOKEN_CHARS + 25);

    assert!(prepare_spoken_text(&text).chars().count() <= MAX_SPOKEN_CHARS + 3);
}

#[test]
fn limits_spoken_text_to_max_sentences() {
    let text = "One. Two! Three? Four. Five. Six. Seven. Eight. Nine.";

    assert_eq!(
        prepare_spoken_text(text),
        "One. Two! Three? Four. Five. Six. Seven. Eight."
    );
}
