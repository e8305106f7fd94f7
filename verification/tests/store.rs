use screamer::ambient::{AmbientSessionState, AudioLane, SpeakerLabel};
use screamer::store::{
    fts_query, lane_from_db, lane_to_db, preview, speaker_from_db, speaker_to_db,
    state_from_db, state_to_db,
};

#[test]
fn search_words_become_prefix_queries() {
    assert_eq!(fts_query("  budget   review "), "budget* review*");
    assert_eq!(fts_query("   "), "");
}

#[test]
fn previews_take_the_first_line_without_speaker() {
    assert_eq!(preview("   "), "No notes yet");
    assert_eq!(preview("You:  hello   there\nsecond line"), "hello there");
    assert_eq!(preview("S2: x"), "x");
    let long = "a".repeat(80);
    assert_eq!(preview(&long).chars().count(), 56);
}

#[test]
fn stored_names_read_back() {
    for state in [
        AmbientSessionState::Idle,
        AmbientSessionState::Recording,
        AmbientSessionState::Processing,
        AmbientSessionState::Completed,
        AmbientSessionState::Failed,
    ] {
        assert_eq!(state_from_db(state_to_db(state)), state);
    }
    for lane in [AudioLane::Microphone, AudioLane::SystemOutput] {
        assert_eq!(lane_from_db(lane_to_db(lane)), lane);
    }
    for speaker in [SpeakerLabel::You, SpeakerLabel::S1, SpeakerLabel::S3, SpeakerLabel::S6] {
        assert_eq!(speaker_from_db(speaker_to_db(speaker)), speaker);
    }
    assert_eq!(state_from_db("unknown"), AmbientSessionState::Idle);
}
