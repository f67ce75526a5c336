use buffy_narrator::store::{session_channel, session_file_name};

#[test]
fn sessions_are_found_again_by_their_file_name() {
    assert_eq!(session_file_name(42), "42.json");
    assert_eq!(session_channel(&session_file_name(42)), Some(42));
    assert_eq!(session_channel(&session_file_name(u64::MAX)), Some(u64::MAX));
    assert_eq!(session_channel("42.json.tmp"), None);
    assert_eq!(session_channel("notes.json"), None);
    assert_eq!(session_channel(".json"), None);
    assert_eq!(session_channel("7"), None);
    assert_eq!(session_channel("+7.json"), Some(7));
}
