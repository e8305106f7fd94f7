use screamer::logging::{
    active_log_path, env_flag, log_flow_block, log_flow_event, log_highlight_event,
    log_transcript, log_vision_block, log_vision_event, vision_verbose_detailed,
};

#[test]
fn switches_accept_the_usual_yes_words() {
    for value in ["1", "true", "YES", " On ", "True"] {
        assert!(env_flag(Some(value)), "{value}");
    }
    for value in ["0", "no", "", "enabled", "y"] {
        assert!(!env_flag(Some(value)), "{value}");
    }
    assert!(!env_flag(None));
    assert!(vision_verbose_detailed(Some("yes")));
    assert!(!vision_verbose_detailed(None));
}

#[test]
fn the_log_file_comes_from_the_environment_or_the_home_directory() {
    assert_eq!(active_log_path(Some("  /tmp/x.log "), Some("/Users/a")), Some("/tmp/x.log".to_string()));
    assert_eq!(
        active_log_path(Some("   "), Some("/Users/a")),
        Some("/Users/a/Library/Logs/Screamer/screamer.log".to_string())
    );
    assert_eq!(
        active_log_path(None, Some("/Users/a/")),
        Some("/Users/a/Library/Logs/Screamer/screamer.log".to_string())
    );
    assert_eq!(active_log_path(None, None), None);
}

#[test]
fn flow_events_and_blocks() {
    assert_eq!(log_flow_event("vision", "prompt", "sent"), "[screamer][vision][prompt] sent");
    assert_eq!(
        log_flow_block("flow", "raw", "first\r\nsecond\n"),
        vec![
            "[screamer][flow][raw] BEGIN".to_string(),
            "  first".to_string(),
            "  second".to_string(),
            "[screamer][flow][raw] END".to_string(),
        ]
    );
    assert_eq!(
        log_flow_block("flow", "raw", "  \n "),
        vec![
            "[screamer][flow][raw] BEGIN".to_string(),
            "  (empty)".to_string(),
            "[screamer][flow][raw] END".to_string(),
        ]
    );
}

#[test]
fn vision_traces_only_when_verbose() {
    assert_eq!(log_vision_event(true, "a", "b"), Some("[screamer][vision][a] b".to_string()));
    assert_eq!(log_vision_event(false, "a", "b"), None);
    assert_eq!(log_highlight_event(true, "arrow", "x=1"), Some("[screamer][highlight][arrow] x=1".to_string()));
    assert_eq!(log_highlight_event(false, "arrow", "x=1"), None);
    assert_eq!(log_vision_block(false, "a", "text").len(), 0);
    assert_eq!(log_vision_block(true, "a", "text").len(), 3);
    assert_eq!(log_transcript(true, "final", "hi"), Some("[screamer] final: hi".to_string()));
    assert_eq!(log_transcript(false, "final", "hi"), None);
}
