use musicom::catalog::Track;
use musicom::queue::{Queue, QueueItem};

fn path(item: &Option<QueueItem>) -> Option<String> {
    item.as_ref().and_then(|i| i.get_path()).map(|p| p.to_string())
}

fn track(p: &str, title: &str) -> Track {
    Track {
        id: None,
        path: p.to_string(),
        title: Some(title.to_string()),
        artist: Some("George".to_string()),
        album: None,
        track_num: None,
    }
}

#[test]
fn plain_queue_plays_in_insertion_order_then_none() {
    let mut q = Queue::new();
    q.add_song("/music/a.mp3");
    q.add_track(&track("/music/b.mp3", "B"));
    q.add_song("/music/c.mp3");
    assert_eq!(path(&q.next_song()), Some("/music/a.mp3".to_string()));
    assert_eq!(q.get_queue_position(), Some(0));
    assert_eq!(path(&q.next_song()), Some("/music/b.mp3".to_string()));
    assert_eq!(path(&q.next_song()), Some("/music/c.mp3".to_string()));
    assert_eq!(q.get_queue_position(), Some(2));
    assert!(q.next_song().is_none());
    assert_eq!(q.get_queue_position(), None);
    assert_eq!(q.get_queue_contents().len(), 3);
}

#[test]
fn track_item_carries_its_metadata() {
    let mut q = Queue::new();
    q.add_track(&track("/music/b.mp3", "B"));
    match q.next_song() {
        Some(QueueItem::Track(t)) => {
            assert_eq!(t.path, "/music/b.mp3");
            assert_eq!(t.title, Some("B".to_string()));
        }
        other => panic!("unexpected {:?}", other),
    }
}

#[test]
fn empty_queue_yields_none_and_keeps_cursor_unset() {
    let mut q = Queue::new();
    assert!(q.next_song().is_none());
    assert_eq!(q.get_queue_position(), None);
    assert!(q.get_queue_contents().is_empty());
}

#[test]
fn repeat_song_times_replays_then_advances() {
    let mut q = Queue::new();
    q.replace_queue(vec![
        QueueItem::new_from_path("/a.mp3"),
        QueueItem::RepeatSongTimes(2),
        QueueItem::new_from_path("/b.mp3"),
    ]);
    assert_eq!(path(&q.next_song()), Some("/a.mp3".to_string()));
    assert_eq!(path(&q.next_song()), Some("/a.mp3".to_string()));
    assert_eq!(path(&q.next_song()), Some("/a.mp3".to_string()));
    assert_eq!(path(&q.next_song()), Some("/b.mp3".to_string()));
    assert_eq!(q.get_queue_position(), Some(2));
    assert!(q.next_song().is_none());
}

#[test]
fn repeat_song_forever_never_advances() {
    let mut q = Queue::new();
    q.replace_queue(vec![QueueItem::new_from_path("/a.mp3"), QueueItem::RepeatSongForever]);
    for _ in 0..50 {
        assert_eq!(path(&q.next_song()), Some("/a.mp3".to_string()));
        assert_eq!(q.get_queue_position(), Some(0));
    }
    assert_eq!(q.get_queue_contents().len(), 2);
}

#[test]
fn repeat_directive_at_start_is_skipped() {
    let mut q = Queue::new();
    q.replace_queue(vec![QueueItem::RepeatSongTimes(3), QueueItem::new_from_path("/b.mp3")]);
    assert_eq!(path(&q.next_song()), Some("/b.mp3".to_string()));
    assert_eq!(q.get_queue_position(), Some(1));
}

fn sorted_paths(items: &[QueueItem]) -> Vec<String> {
    let mut v: Vec<String> = items
        .iter()
        .map(|i| match i.get_path() {
            Some(p) => p.to_string(),
            None => "<directive>".to_string(),
        })
        .collect();
    v.sort();
    v
}

#[test]
fn shuffle_all_keeps_every_item() {
    let initial = vec![
        QueueItem::ShuffleAll,
        QueueItem::new_from_path("/a.mp3"),
        QueueItem::new_from_path("/b.mp3"),
        QueueItem::new_from_path("/c.mp3"),
        QueueItem::new_from_path("/d.mp3"),
    ];
    let before = sorted_paths(&initial);
    let mut q = Queue::new();
    q.replace_queue(initial);
    let got = q.next_song();
    let contents = q.get_queue_contents();
    assert_eq!(sorted_paths(&contents), before);
    // The cursor was put on index 0 and resolution went on from there.
    assert_eq!(q.get_queue_position(), Some(1));
    assert_eq!(path(&got), contents[1].get_path().map(|p| p.to_string()));
}

#[test]
fn shuffle_after_keeps_every_item() {
    let initial = vec![
        QueueItem::new_from_path("/a.mp3"),
        QueueItem::ShuffleAfter,
        QueueItem::new_from_path("/b.mp3"),
        QueueItem::new_from_path("/c.mp3"),
    ];
    let before = sorted_paths(&initial);
    let mut q = Queue::new();
    q.replace_queue(initial);
    assert_eq!(path(&q.next_song()), Some("/a.mp3".to_string()));
    let _ = q.next_song();
    let contents = q.get_queue_contents();
    assert_eq!(sorted_paths(&contents), before);
    assert_eq!(contents[0].get_path(), Some("/a.mp3"));
}

#[test]
fn cyclic_directives_clear_the_queue() {
    let mut q = Queue::new();
    q.replace_queue(vec![QueueItem::RepeatQueue, QueueItem::RepeatQueue]);
    assert!(q.next_song().is_none());
    assert!(q.get_queue_contents().is_empty());
    assert_eq!(q.get_queue_position(), None);
}

#[test]
fn repeat_queue_goes_back_to_start() {
    let mut q = Queue::new();
    q.replace_queue(vec![QueueItem::new_from_path("/a.mp3"), QueueItem::RepeatQueue]);
    assert_eq!(path(&q.next_song()), Some("/a.mp3".to_string()));
    assert_eq!(path(&q.next_song()), Some("/a.mp3".to_string()));
    assert_eq!(q.get_queue_position(), Some(0));
}

#[test]
fn set_queue_index_checks_bounds_and_always_notifies() {
    let mut q = Queue::new();
    let id = q.register_queue_change_cb();
    q.add_song("/a.mp3");
    q.add_song("/b.mp3");
    q.set_queue_index(1);
    assert_eq!(q.get_queue_position(), Some(1));
    q.set_queue_index(7);
    assert_eq!(q.get_queue_position(), Some(1));
    assert_eq!(q.take_notifications(), vec![id, id, id, id]);
    assert!(q.take_notifications().is_empty());
}

#[test]
fn next_song_notifies_once_per_call() {
    let mut q = Queue::new();
    let first = q.register_queue_change_cb();
    let second = q.register_queue_change_cb();
    q.replace_queue(vec![
        QueueItem::new_from_path("/a.mp3"),
        QueueItem::RepeatSongTimes(0),
        QueueItem::new_from_path("/b.mp3"),
    ]);
    q.take_notifications();
    assert_eq!(path(&q.next_song()), Some("/a.mp3".to_string()));
    assert_eq!(path(&q.next_song()), Some("/b.mp3".to_string()));
    assert_eq!(q.take_notifications(), vec![first, second, first, second]);
}

#[test]
fn clear_queue_empties_and_notifies() {
    let mut q = Queue::new();
    let id = q.register_queue_change_cb();
    q.add_song("/a.mp3");
    q.next_song();
    q.clear_queue();
    assert!(q.get_queue_contents().is_empty());
    assert_eq!(q.get_queue_position(), None);
    assert_eq!(q.take_notifications(), vec![id, id, id]);
}

#[test]
fn play_queue_hands_out_path() {
    let mut q = Queue::new();
    let id = q.register_queue_change_cb();
    q.add_track(&track("/music/x.ogg", "X"));
    q.take_notifications();
    assert_eq!(q.play_queue(), Some("/music/x.ogg".to_string()));
    assert_eq!(q.take_notifications(), vec![id, id]);
    assert_eq!(q.play_queue(), None);
    assert_eq!(q.take_notifications(), vec![id]);
}

#[test]
fn queue_item_paths() {
    assert_eq!(QueueItem::new_from_path("/p.mp3").get_path(), Some("/p.mp3"));
    assert_eq!(QueueItem::new_from_track(track("/t.mp3", "T")).get_path(), Some("/t.mp3"));
    assert_eq!(QueueItem::ShuffleAll.get_path(), None);
    assert_eq!(QueueItem::RepeatSongTimes(1).get_path(), None);
}

#[test]
fn shuffle_all_reorders_items() {
    let mut initial = vec![QueueItem::ShuffleAll];
    for i in 0..20 {
        initial.push(QueueItem::new_from_path(&format!("/song{:02}.mp3", i)));
    }
    let before: Vec<Option<String>> =
        initial.iter().map(|i| i.get_path().map(|p| p.to_string())).collect();
    let mut q = Queue::new();
    q.replace_queue(initial);
    assert!(q.next_song().is_some());
    let after: Vec<Option<String>> = q
        .get_queue_contents()
        .iter()
        .map(|i| i.get_path().map(|p| p.to_string()))
        .collect();
    assert_eq!(after.len(), before.len());
    assert_ne!(after, before);
}
