use musicom::catalog::{Album, Track, TrackIter, TrackNoId, TrackedPath, TrackedPathIter, TrackedPathNoId};

fn track(p: &str, album: Option<&str>) -> Track {
    Track {
        id: None,
        path: p.to_string(),
        title: Some("Test 1: The Intro".to_string()),
        artist: Some("George".to_string()),
        album: album.map(|a| a.to_string()),
        track_num: None,
    }
}

#[test]
fn album_collects_its_tracks_in_order() {
    let tracks = vec![
        track("/tmp/1.mp3", Some("X")),
        track("/tmp/2.mp3", Some("Y")),
        track("/tmp/3.mp3", None),
        track("/tmp/4.mp3", Some("X")),
    ];
    let album = Album::get_album("X", &tracks);
    assert_eq!(album.album, "X");
    let paths: Vec<&str> = album.iter_tracks().iter().map(|t| t.path.as_str()).collect();
    assert_eq!(paths, vec!["/tmp/1.mp3", "/tmp/4.mp3"]);
    assert!(Album::get_album("Z", &tracks).track_list.is_empty());
}

#[test]
fn album_keys_are_distinct_and_skip_missing() {
    let tracks = vec![
        track("/tmp/1.mp3", Some("X")),
        track("/tmp/2.mp3", Some("Y")),
        track("/tmp/3.mp3", None),
        track("/tmp/4.mp3", Some("X")),
    ];
    let mut keys = Album::get_all_album_keys(&tracks);
    keys.sort();
    assert_eq!(keys, vec!["X".to_string(), "Y".to_string()]);
    assert!(Album::get_all_album_keys(&vec![track("/tmp/5.mp3", None)]).is_empty());
}

#[test]
fn track_equality_ignores_id() {
    let mut a = track("/tmp/test1.mp3", None);
    let b = track("/tmp/test1.mp3", None);
    a.id = Some(4);
    assert_eq!(a, b);
    let c = track("/tmp/test2.mp3", None);
    assert_ne!(a, c);
    let mut d = track("/tmp/test1.mp3", None);
    d.title = None;
    assert_ne!(b, d);
}

#[test]
fn track_without_id() {
    let mut t = track("/tmp/test1.mp3", Some("X"));
    t.id = Some(9);
    let n: TrackNoId = t.into();
    assert_eq!(n.path, "/tmp/test1.mp3");
    assert_eq!(n.album, Some("X".to_string()));
    let p = TrackedPath { id: Some(1), path: "/tmp/test1".to_string() };
    let q: TrackedPathNoId = p.into();
    assert_eq!(q.path, "/tmp/test1");
}

#[test]
fn iterators_hand_out_in_order() {
    let tracks = vec![track("/tmp/test1.mp3", None), track("/tmp/test2.mp3", None)];
    let mut it = TrackIter::from_tracks(&tracks);
    assert_eq!(it.next(), Some(tracks[0].clone()));
    assert_eq!(it.next(), Some(tracks[1].clone()));
    assert_eq!(it.next(), None);
    let paths = vec![
        TrackedPath { id: None, path: "/tmp/test1".to_string() },
        TrackedPath { id: None, path: "/tmp/test2".to_string() },
    ];
    let mut pit = TrackedPathIter::from_paths(&paths);
    assert_eq!(pit.next(), Some(paths[0].clone()));
    assert_eq!(pit.next(), Some(paths[1].clone()));
    assert_eq!(pit.next(), None);
}
