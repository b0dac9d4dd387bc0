use neri_player_desktop::sync::merge::{
    has_data_changed, merge_favorite_playlists, merge_playlists, merge_recent_play_deletions, merge_recent_plays, merge_songs, merge_sync_log,
    three_way_merge, three_way_merge_at,
};
use neri_player_desktop::sync::models::{
    SongIdentity, SyncFavoritePlaylist,
    SnapshotEntry, SyncData, SyncLogEntry, SyncPlaylist, SyncRecentPlay, SyncRecentPlayDeletion, SyncSong,
};

fn song(id: &str) -> SyncSong {
    let mut s = SyncSong::default();
    s.id = id.to_string();
    s.name = format!("song {}", id);
    s
}

fn ids(songs: &[SyncSong]) -> Vec<String> {
    songs.iter().map(|s| s.id.clone()).collect()
}

fn key(id: &str) -> String {
    format!("{}||", id)
}

fn playlist(id: &str, songs: Vec<SyncSong>, modified_at: i64, deleted: bool) -> SyncPlaylist {
    SyncPlaylist { id: id.to_string(), name: format!("list {}", id), songs, created_at: 0, modified_at, is_deleted: deleted }
}

#[test]
fn first_sync_takes_the_union_of_songs() {
    let local = vec![song("1"), song("2")];
    let remote = vec![song("2"), song("3")];
    let merged = merge_songs(&local, &remote, 0, &vec![]);
    assert_eq!(ids(&merged), vec!["1", "2", "3"]);
}

#[test]
fn a_song_deleted_on_one_side_stays_deleted() {
    let base = vec![key("1"), key("2"), key("3")];
    let local = vec![song("1"), song("3")];
    let remote = vec![song("1"), song("2"), song("3"), song("4")];
    let merged = merge_songs(&local, &remote, 0, &base);
    assert_eq!(ids(&merged), vec!["1", "3", "4"]);
    let merged_other_way = merge_songs(&remote, &local, 0, &base);
    assert_eq!(ids(&merged_other_way), vec!["1", "3", "4"]);
}

#[test]
fn emptying_one_side_deletes_the_recorded_songs() {
    let base = vec![key("1")];
    assert!(merge_songs(&vec![song("1")], &vec![], 0, &base).is_empty());
    assert!(merge_songs(&vec![], &vec![song("1")], 0, &base).is_empty());
    assert_eq!(ids(&merge_songs(&vec![], &vec![song("1"), song("2")], 0, &base)), vec!["2"]);
    assert_eq!(ids(&merge_songs(&vec![song("1")], &vec![], 0, &vec![])), vec!["1"]);
    assert_eq!(ids(&merge_songs(&vec![], &vec![song("1")], 0, &vec![])), vec!["1"]);
}

#[test]
fn deleted_playlists_win_and_order_follows_the_modified_side() {
    let local = vec![playlist("a", vec![], 5, false), playlist("b", vec![], 5, true)];
    let remote = vec![playlist("c", vec![], 50, false), playlist("a", vec![], 50, false), playlist("b", vec![], 50, false)];
    let merged = merge_playlists(&local, &remote, 10, &vec![]);
    let order: Vec<String> = merged.iter().map(|p| p.id.clone()).collect();
    assert_eq!(order, vec!["c", "a"]);
}

#[test]
fn merged_playlist_songs_use_the_snapshot() {
    let local = vec![playlist("p", vec![song("1")], 20, false)];
    let remote = vec![playlist("p", vec![song("1"), song("2")], 20, false)];
    let base = vec![SnapshotEntry { playlist_id: "p".to_string(), song_keys: vec![key("1"), key("2")] }];
    let merged = merge_playlists(&local, &remote, 10, &base);
    assert_eq!(merged.len(), 1);
    assert_eq!(ids(&merged[0].songs), vec!["1"]);
}

#[test]
fn sync_log_is_newest_first_without_repeats() {
    let e = |t: i64, d: &str| SyncLogEntry {
        timestamp: t,
        device_id: d.to_string(),
        action: String::new(),
        playlist_id: None,
        song_id: None,
        details: None,
    };
    let merged = merge_sync_log(&vec![e(1, "a"), e(3, "a")], &vec![e(3, "a"), e(2, "b")]);
    let times: Vec<i64> = merged.iter().map(|x| x.timestamp).collect();
    assert_eq!(times, vec![3, 2, 1]);
}

#[test]
fn deleted_plays_are_dropped_and_plays_sorted() {
    let play = |id: &str, at: i64| SyncRecentPlay { song_id: id.to_string(), song: song(id), played_at: at, device_id: "d".to_string() };
    let del = |id: &str, at: i64| SyncRecentPlayDeletion {
        song_id: id.to_string(),
        album: String::new(),
        media_uri: String::new(),
        deleted_at: at,
        device_id: "d".to_string(),
    };
    let deletions = merge_recent_play_deletions(&vec![del("x", 10)], &vec![del("x", 20)]);
    assert_eq!(deletions.len(), 1);
    assert_eq!(deletions[0].deleted_at, 20);
    let plays = merge_recent_plays(&vec![play("x", 5), play("y", 7)], &vec![play("x", 30), play("z", 6)], &deletions);
    let kept: Vec<(String, i64)> = plays.iter().map(|p| (p.song_id.clone(), p.played_at)).collect();
    assert_eq!(kept, vec![("x".to_string(), 30), ("y".to_string(), 7), ("z".to_string(), 6)]);
}

#[test]
fn data_compared_with_itself_has_not_changed() {
    let mut d = SyncData::default();
    d.playlists = vec![playlist("p", vec![song("1")], 1, false)];
    assert!(!has_data_changed(&d, &d));
    let mut other = SyncData::default();
    other.playlists = vec![playlist("p", vec![song("2")], 1, false)];
    assert!(has_data_changed(&d, &other));
}

#[test]
fn three_way_merge_of_identical_data_changes_nothing() {
    let mut d = SyncData::default();
    d.version = "2.0".to_string();
    d.playlists = vec![playlist("p", vec![song("1"), song("2")], 1, false)];
    let merged = three_way_merge(&d, &d, 0, &vec![]);
    assert_eq!(merged.playlists.len(), 1);
    assert_eq!(ids(&merged.playlists[0].songs), vec!["1", "2"]);
    assert!(!has_data_changed(&d, &merged));
}

#[test]
fn merge_is_stamped_with_the_time_given() {
    let mut local = SyncData::default();
    local.device_id = "d".to_string();
    let remote = SyncData::default();
    let merged = three_way_merge_at(&local, &remote, 0, &vec![], 1234);
    assert_eq!(merged.last_modified, 1234);
    assert_eq!(merged.device_id, "d");
    assert_eq!(merged.version, "2.0");
}

#[test]
fn stable_keys_tell_identities_apart() {
    let key = |id: &str, album: &str, uri: &str| {
        SongIdentity { id: id.to_string(), album: album.to_string(), media_uri: uri.to_string() }.stable_key()
    };
    assert_eq!(key("1", "A", ""), "1|A|");
    assert_ne!(key("1", "A", ""), key("1", "", "A"));
    assert_ne!(key("12", "", ""), key("1", "2", ""));
    assert_eq!(key("1", "A", "u"), key("1", "A", "u"));
}

#[test]
fn merged_plays_and_deletions_agree() {
    let play = |id: &str, at: i64| SyncRecentPlay { song_id: id.to_string(), song: song(id), played_at: at, device_id: "d".to_string() };
    let del = |id: &str, at: i64| SyncRecentPlayDeletion {
        song_id: id.to_string(),
        album: String::new(),
        media_uri: String::new(),
        deleted_at: at,
        device_id: "d".to_string(),
    };
    let deletions = merge_recent_play_deletions(&vec![del("a", 10), del("b", 3)], &vec![del("a", 4), del("c", 50)]);
    let keys: Vec<String> = deletions.iter().map(|d| d.song_id.clone()).collect();
    assert_eq!(keys, vec!["c", "a", "b"]);
    let plays = merge_recent_plays(&vec![play("a", 9), play("b", 5), play("a", 12)], &vec![play("c", 40), play("b", 1)], &deletions);
    for p in &plays {
        for d in &deletions {
            if d.song_id == p.song_id {
                assert!(d.deleted_at <= p.played_at);
            }
        }
    }
    let kept: Vec<(String, i64)> = plays.iter().map(|p| (p.song_id.clone(), p.played_at)).collect();
    assert_eq!(kept, vec![("a".to_string(), 12), ("b".to_string(), 5)]);
}

#[test]
fn merged_favourites_are_grouped_and_ordered() {
    let fav = |id: &str, source: &str, added: i64, modified: i64| SyncFavoritePlaylist {
        id: id.to_string(),
        name: id.to_string(),
        cover_url: String::new(),
        track_count: 0,
        source: source.to_string(),
        songs: vec![],
        added_time: added,
        modified_at: modified,
        is_deleted: false,
        sort_order: 0,
        browse_id: None,
        playlist_id: None,
        subtitle: None,
    };
    let merged = merge_favorite_playlists(&vec![fav("1", "netease", 5, 1), fav("1", "bili", 9, 1)], &vec![fav("1", "netease", 7, 2), fav("2", "netease", 1, 1)], 0);
    let groups: Vec<(String, String, i64)> = merged.iter().map(|f| (f.id.clone(), f.source.clone(), f.added_time)).collect();
    assert_eq!(
        groups,
        vec![("1".to_string(), "bili".to_string(), 9), ("1".to_string(), "netease".to_string(), 7), ("2".to_string(), "netease".to_string(), 1)]
    );
}
