use festival_auth::catalog::{is_track_key, pilgrim_song_id, pilgrim_song_ids};
use festival_auth::CalendarEvent;

fn event(t: &str) -> CalendarEvent {
    CalendarEvent {
        active_since: "2024-01-01T00:00:00Z".to_string(),
        active_until: "2024-01-02T00:00:00Z".to_string(),
        event_type: t.to_string(),
    }
}

#[test]
fn pilgrim_ids_are_picked_in_order() {
    let events = vec![
        event("EventFlag.Season1"),
        event("PilgrimSong.songA"),
        event("Other"),
        event("PilgrimSong.songB"),
    ];
    assert_eq!(pilgrim_song_ids(&events), vec!["songA".to_string(), "songB".to_string()]);
    assert_eq!(pilgrim_song_ids(&Vec::new()), Vec::<String>::new());
}

#[test]
fn pilgrim_id_needs_prefix() {
    assert_eq!(pilgrim_song_id("PilgrimSong.x"), Some("x".to_string()));
    assert_eq!(pilgrim_song_id("PilgrimSong."), Some(String::new()));
    assert_eq!(pilgrim_song_id("PilgrimSong"), None);
    assert_eq!(pilgrim_song_id("XPilgrimSong.x"), None);
    assert_eq!(pilgrim_song_id("PilgrimSong.a.PilgrimSong.b"), Some("a.".to_string()));
    assert_eq!(pilgrim_song_id("PilgrimSong.abcPilgrimSong"), Some("abcPilgrimSong".to_string()));
}

#[test]
fn track_keys_skip_metadata() {
    assert!(is_track_key("song"));
    assert!(!is_track_key("_title"));
    assert!(!is_track_key("lastModified"));
}
