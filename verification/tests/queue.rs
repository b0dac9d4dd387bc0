use neri_player_desktop::audio_queue::PlayQueue;
use neri_player_desktop::state::{RepeatMode, TrackInfo, TrackSource};

fn track(id: &str) -> TrackInfo {
    TrackInfo {
        id: id.to_string(),
        title: format!("title {}", id),
        artist: "artist".to_string(),
        album: "album".to_string(),
        duration_ms: 1000,
        source: TrackSource::Local,
        url: format!("/music/{}.mp3", id),
        cover_url: None,
    }
}

fn queue_of(n: usize, start: usize) -> PlayQueue {
    let mut q = PlayQueue::new();
    q.set_tracks((0..n).map(|i| track(&i.to_string())).collect(), start);
    q
}

fn current_id(q: &PlayQueue) -> Option<String> {
    q.current().map(|t| t.id.clone())
}

#[test]
fn new_queue_is_empty_and_plain() {
    let mut q = PlayQueue::new();
    assert!(q.current().is_none());
    assert_eq!(q.repeat_mode, RepeatMode::Off);
    assert!(!q.shuffle);
    assert!(q.next().is_none());
    assert!(q.prev().is_none());
}

#[test]
fn set_tracks_starts_at_given_index() {
    let q = queue_of(3, 1);
    assert_eq!(current_id(&q), Some("1".to_string()));
    assert_eq!(q.current_index, Some(1));
}

#[test]
fn next_without_repeat_stops_at_the_end() {
    let mut q = queue_of(2, 0);
    assert_eq!(q.next().map(|t| t.id.clone()), Some("1".to_string()));
    assert!(q.next().is_none());
    assert_eq!(current_id(&q), Some("1".to_string()));
}

#[test]
fn next_with_repeat_all_wraps_around() {
    let mut q = queue_of(2, 1);
    q.cycle_repeat();
    assert_eq!(q.repeat_mode, RepeatMode::All);
    assert_eq!(q.next().map(|t| t.id.clone()), Some("0".to_string()));
}

#[test]
fn repeat_one_stays_on_the_track() {
    let mut q = queue_of(3, 2);
    q.cycle_repeat();
    q.cycle_repeat();
    assert_eq!(q.repeat_mode, RepeatMode::One);
    for _ in 0..3 {
        assert_eq!(q.next().map(|t| t.id.clone()), Some("2".to_string()));
    }
}

#[test]
fn cycle_repeat_comes_back_after_three_steps() {
    let mut q = queue_of(1, 0);
    assert_eq!(q.cycle_repeat(), RepeatMode::All);
    assert_eq!(q.cycle_repeat(), RepeatMode::One);
    assert_eq!(q.cycle_repeat(), RepeatMode::Off);
}

#[test]
fn prev_at_start_wraps_only_with_repeat_all() {
    let mut q = queue_of(3, 0);
    assert_eq!(q.prev().map(|t| t.id.clone()), Some("0".to_string()));
    q.cycle_repeat();
    assert_eq!(q.prev().map(|t| t.id.clone()), Some("2".to_string()));
}

#[test]
fn prev_undoes_next_in_order() {
    let mut q = queue_of(4, 1);
    q.next();
    assert_eq!(current_id(&q), Some("2".to_string()));
    q.prev();
    assert_eq!(current_id(&q), Some("1".to_string()));
}

#[test]
fn shuffle_keeps_current_first_and_plays_every_track_once() {
    let mut q = queue_of(6, 4);
    q.toggle_shuffle();
    assert!(q.shuffle);
    assert_eq!(q.shuffle_order[0], 4);
    assert_eq!(q.shuffle_pos, 0);
    let mut seen = vec![current_id(&q).unwrap()];
    while let Some(t) = q.next() {
        seen.push(t.id.clone());
    }
    seen.sort();
    assert_eq!(seen, vec!["0", "1", "2", "3", "4", "5"]);
}

#[test]
fn prev_undoes_next_when_shuffled() {
    let mut q = queue_of(5, 0);
    q.toggle_shuffle();
    let first = current_id(&q);
    q.next();
    q.prev();
    assert_eq!(current_id(&q), first);
    assert_eq!(q.shuffle_pos, 0);
}

#[test]
fn shuffled_play_visits_every_track_once() {
    let mut q = PlayQueue::new();
    q.toggle_shuffle();
    q.set_tracks((0..7).map(|i| track(&i.to_string())).collect(), 3);
    let mut seen = vec![q.current_index.unwrap()];
    for _ in 0..6 {
        assert!(q.next().is_some());
        seen.push(q.current_index.unwrap());
    }
    assert!(q.next().is_none());
    assert_eq!(seen[0], 3);
    seen.sort();
    assert_eq!(seen, (0..7).collect::<Vec<usize>>());
}

#[test]
fn prev_undoes_a_wrapping_next_and_one_shuffled_track_stays() {
    let mut q = queue_of(3, 2);
    q.cycle_repeat();
    assert_eq!(q.repeat_mode, RepeatMode::All);
    q.next();
    assert_eq!(q.current_index, Some(0));
    q.prev();
    assert_eq!(q.current_index, Some(2));
    let mut one = PlayQueue::new();
    one.toggle_shuffle();
    one.set_tracks(vec![track("x")], 0);
    assert!(one.next().is_none());
    one.cycle_repeat();
    assert_eq!(current_id(&one), Some("x".to_string()));
    one.next();
    one.prev();
    assert_eq!(one.current_index, Some(0));
}
