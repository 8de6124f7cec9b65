use musicom::now_playing::NowPlaying;

#[test]
fn new_now_playing_is_blank() {
    let np = NowPlaying::new();
    assert_eq!(np.get_song_progress(), (0, 0));
    assert_eq!(np.get_artist(), "");
    assert_eq!(np.get_song_name(), "");
}

#[test]
fn poll_progress_notifies_only_on_change() {
    let mut np = NowPlaying::new();
    let id = np.register_changed_cb();
    assert!(!np.poll_progress(None, None));
    assert!(np.take_notifications().is_empty());
    assert!(np.poll_progress(Some(3), Some(180)));
    assert_eq!(np.get_song_progress(), (3, 180));
    assert_eq!(np.take_notifications(), vec![id]);
    assert!(!np.poll_progress(Some(3), Some(180)));
    assert!(np.take_notifications().is_empty());
    assert!(np.poll_progress(None, Some(180)));
    assert_eq!(np.get_song_progress(), (0, 180));
}

#[test]
fn missing_tags_read_as_empty() {
    let mut np = NowPlaying::new();
    let id = np.register_changed_cb();
    np.on_tags_changed(Some("George".to_string()), None);
    assert_eq!(np.get_artist(), "George");
    assert_eq!(np.get_song_name(), "");
    np.on_tags_changed(None, Some("Intro".to_string()));
    assert_eq!(np.get_artist(), "");
    assert_eq!(np.get_song_name(), "Intro");
    assert_eq!(np.take_notifications(), vec![id, id]);
}

#[test]
fn set_contents_replaces_everything() {
    let mut np = NowPlaying::new();
    np.set_contents(5, 60, "A".to_string(), "S".to_string());
    assert_eq!(np.get_song_progress(), (5, 60));
    np.set_tags("B".to_string(), "T".to_string());
    assert_eq!((np.get_artist(), np.get_song_name()), ("B".to_string(), "T".to_string()));
    assert_eq!(np.get_song_progress(), (5, 60));
}
