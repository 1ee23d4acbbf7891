use playlist_core::queue::PlayQueue;

#[derive(Clone, Debug)]
struct QueueTrack {
    id: i64,
    title: String,
}

fn track(id: i64) -> QueueTrack {
    QueueTrack { id, title: format!("Track {}", id) }
}

fn queue_with(n: i64) -> PlayQueue<QueueTrack> {
    let mut q = PlayQueue::new();
    q.set_tracks((1..=n).map(track).collect(), 0);
    q
}

#[test]
fn removing_current_does_not_skip_next_track() {
    let mut q = queue_with(3);
    assert_eq!(q.current().unwrap().id, 1);
    q.remove_at_order_index(0);
    assert_eq!(q.next().unwrap().id, 2);
    assert_eq!(q.next().unwrap().id, 3);
}

#[test]
fn removing_before_current_keeps_current() {
    let mut q = queue_with(3);
    q.skip_to(1);
    q.remove_at_order_index(0);
    assert_eq!(q.current().unwrap().id, 2);
    assert_eq!(q.next().unwrap().id, 3);
}

#[test]
fn removing_last_while_current_steps_back() {
    let mut q = queue_with(2);
    q.skip_to(1);
    q.remove_at_order_index(1);
    assert_eq!(q.current().unwrap().id, 1);
    assert!(q.next().is_none());
}

#[test]
fn explicit_skip_clears_stay_flag() {
    let mut q = queue_with(3);
    q.remove_at_order_index(0);
    q.skip_to(1);
    assert_eq!(q.current().unwrap().id, 3);
    assert!(q.next().is_none());
}

#[test]
fn shuffle_keeps_current_and_played_in_place() {
    let mut q = queue_with(10);
    q.skip_to(3);
    q.set_shuffle(true);
    assert_eq!(q.current().unwrap().id, 4);
    let ordered = q.get_ordered_tracks();
    assert_eq!(ordered[0].id, 1);
    assert_eq!(ordered[1].id, 2);
    assert_eq!(ordered[2].id, 3);
    assert_eq!(ordered[3].id, 4);
    let mut upcoming: Vec<i64> = ordered[4..].iter().map(|t| t.id).collect();
    upcoming.sort();
    assert_eq!(upcoming, vec![5, 6, 7, 8, 9, 10]);
}

#[test]
fn unshuffle_restores_original_order() {
    let mut q = queue_with(10);
    q.skip_to(2);
    q.set_shuffle(true);
    q.set_shuffle(false);
    assert_eq!(q.current().unwrap().id, 3);
    let ids: Vec<i64> = q.get_ordered_tracks().iter().map(|t| t.id).collect();
    assert_eq!(ids, (1..=10).collect::<Vec<i64>>());
}

#[test]
fn unshuffle_does_not_resurrect_removed_tracks() {
    let mut q = queue_with(5);
    q.set_shuffle(true);
    q.remove_at_order_index(4);
    let removed_len = q.len();
    q.set_shuffle(false);
    assert_eq!(q.len(), removed_len);
}

#[test]
fn len_reflects_removals() {
    let mut q = queue_with(3);
    q.remove_at_order_index(2);
    assert_eq!(q.len(), 2);
}

#[test]
fn start_index_is_clamped_and_titles_kept() {
    let mut q: PlayQueue<QueueTrack> = PlayQueue::new();
    q.set_tracks((1..=4).map(track).collect(), 99);
    assert_eq!(q.current().unwrap().id, 4);
    assert_eq!(q.current().unwrap().title, "Track 4");
    assert_eq!(q.position(), Some(3));
    let mut empty: PlayQueue<QueueTrack> = PlayQueue::new();
    empty.set_tracks(Vec::new(), 0);
    assert!(empty.current().is_none());
    assert!(empty.next().is_none());
    assert!(empty.restart().is_none());
}

#[test]
fn add_next_plays_after_current_and_peek_wraps() {
    let mut q = queue_with(3);
    q.add_next(track(9));
    assert_eq!(q.peek_next(false).unwrap().id, 9);
    assert_eq!(q.next().unwrap().id, 9);
    q.add_track(track(7));
    let ids: Vec<i64> = q.get_ordered_tracks().iter().map(|t| t.id).collect();
    assert_eq!(ids, vec![1, 9, 2, 3, 7]);
    q.skip_to(4);
    assert!(q.peek_next(false).is_none());
    assert_eq!(q.peek_next(true).unwrap().id, 1);
    assert_eq!(q.restart().unwrap().id, 1);
    assert!(q.prev().is_none());
}

#[test]
fn moving_entries_keeps_current_track() {
    let mut q = queue_with(5);
    q.skip_to(2);
    q.move_in_queue(0, 4);
    assert_eq!(q.current().unwrap().id, 3);
    q.move_in_queue(2, 0);
    assert_eq!(q.current().unwrap().id, 3);
    assert_eq!(q.position(), Some(2));
    let ids: Vec<i64> = q.get_ordered_tracks().iter().map(|t| t.id).collect();
    assert_eq!(ids, vec![4, 2, 3, 5, 1]);
    q.clear();
    assert_eq!(q.len(), 0);
    assert!(q.current().is_none());
}

#[test]
fn remove_playing_sets_stay_then_prev_clears_it() {
    let mut q = queue_with(4);
    q.skip_to(1);
    q.remove_at_order_index(1);
    assert_eq!(q.peek_next(false).unwrap().id, 3);
    assert_eq!(q.prev().unwrap().id, 1);
    assert_eq!(q.next().unwrap().id, 3);
}
