use neri_player_desktop::library::{list_playlists, playlist_tracks, Playlist, PlaylistStore};
use neri_player_desktop::state::{TrackInfo, TrackSource};

fn track(id: &str, cover: Option<&str>) -> TrackInfo {
    TrackInfo {
        id: id.to_string(),
        title: id.to_string(),
        artist: String::new(),
        album: String::new(),
        duration_ms: 0,
        source: TrackSource::Netease,
        url: String::new(),
        cover_url: cover.map(|c| c.to_string()),
    }
}

fn playlist(id: i64, name: &str, tracks: Vec<TrackInfo>, modified_at: u64) -> Playlist {
    Playlist { id, name: name.to_string(), tracks, modified_at }
}

#[test]
fn create_starts_ids_at_one_and_counts_up() {
    let mut store = PlaylistStore::default();
    assert_eq!(store.create_at("A".to_string(), 10), 1);
    assert_eq!(store.create_at("B".to_string(), 11), 2);
    assert_eq!(store.next_id, 3);
    assert_eq!(store.playlists[1].name, "B");
    assert_eq!(store.playlists[1].modified_at, 11);
    assert!(store.playlists[1].tracks.is_empty());
    let id = store.create("C".to_string());
    assert_eq!(id, 3);
}

#[test]
fn delete_tells_whether_a_playlist_went() {
    let mut store = PlaylistStore { playlists: vec![playlist(1, "A", vec![], 0), playlist(2, "B", vec![], 0)], next_id: 3 };
    assert!(store.delete(1));
    assert_eq!(store.playlists.len(), 1);
    assert!(!store.delete(7));
    assert_eq!(store.playlists[0].id, 2);
}

#[test]
fn fix_next_id_moves_past_the_largest_id() {
    let mut store = PlaylistStore { playlists: vec![playlist(-1001, "Fav", vec![], 0), playlist(41, "A", vec![], 0)], next_id: 5 };
    store.fix_next_id();
    assert_eq!(store.next_id, 42);
    let mut empty = PlaylistStore { playlists: vec![], next_id: -3 };
    empty.fix_next_id();
    assert_eq!(empty.next_id, 1);
    let mut ahead = PlaylistStore { playlists: vec![playlist(2, "A", vec![], 0)], next_id: 9 };
    ahead.fix_next_id();
    assert_eq!(ahead.next_id, 9);
}

#[test]
fn duplicate_names_keep_the_fullest_playlist() {
    let mut store = PlaylistStore {
        playlists: vec![
            playlist(1, "Mix", vec![track("a", None)], 5),
            playlist(2, " Mix ", vec![track("a", None), track("b", None)], 7),
            playlist(3, "Other", vec![], 1),
            playlist(4, "Mix", vec![track("x", None), track("y", None)], 9),
        ],
        next_id: 5,
    };
    let (infos, changed) = list_playlists(&mut store);
    assert!(changed);
    let ids: Vec<i64> = store.playlists.iter().map(|p| p.id).collect();
    assert_eq!(ids, vec![2, 3]);
    let info_ids: Vec<i64> = infos.iter().map(|i| i.id).collect();
    assert_eq!(info_ids, vec![2, 3]);
}

#[test]
fn summaries_count_unique_tracks_and_take_last_cover() {
    let mut store = PlaylistStore {
        playlists: vec![
            playlist(1, "Old", vec![], 1),
            playlist(2, "New", vec![track("a", Some("c1")), track("a", None), track("", None), track("b", Some("c2"))], 8),
            playlist(3, "Same", vec![], 1),
        ],
        next_id: 4,
    };
    let (infos, changed) = list_playlists(&mut store);
    assert!(!changed);
    let ids: Vec<i64> = infos.iter().map(|i| i.id).collect();
    assert_eq!(ids, vec![2, 1, 3]);
    assert_eq!(infos[0].track_count, 2);
    assert_eq!(infos[0].cover_url.as_deref(), Some("c2"));
    assert_eq!(infos[1].cover_url, None);
}

#[test]
fn playlist_tracks_are_unique_and_missing_playlists_are_errors() {
    let store = PlaylistStore { playlists: vec![playlist(1, "A", vec![track("a", None), track("a", None), track("b", None)], 0)], next_id: 2 };
    let tracks = playlist_tracks(&store, 1).ok().unwrap();
    assert_eq!(tracks.iter().map(|t| t.id.clone()).collect::<Vec<_>>(), vec!["a", "b"]);
    let err = playlist_tracks(&store, 9).err().unwrap();
    assert_eq!(err.message(), "Playlist not found");
}

#[test]
fn editing_a_playlist() {
    let mut store = PlaylistStore { playlists: vec![playlist(1, "A", vec![track("a", None)], 0)], next_id: 2 };
    assert!(store.rename_at(1, "B".to_string(), 5));
    assert_eq!(store.playlists[0].name, "B");
    assert_eq!(store.playlists[0].modified_at, 5);
    assert!(!store.rename_at(2, "C".to_string(), 6));
    assert!(store.add_track_at(1, track("b", None), 7).is_ok());
    assert!(store.add_track_at(1, track("b", None), 8).is_ok());
    assert_eq!(store.playlists[0].tracks.len(), 2);
    assert_eq!(store.playlists[0].modified_at, 7);
    assert!(store.remove_track_at(1, "a", 9).is_ok());
    assert_eq!(store.playlists[0].tracks.len(), 1);
    assert_eq!(store.playlists[0].modified_at, 9);
    assert!(store.add_track_at(3, track("c", None), 10).is_err());
    assert!(store.remove_track(3, "c").is_err());
}

#[test]
fn created_id_after_fixing_is_unused() {
    let mut store = PlaylistStore {
        playlists: vec![playlist(3, "A", vec![], 0), playlist(7, "B", vec![], 0), playlist(-1001, "Fav", vec![], 0)],
        next_id: 2,
    };
    store.fix_next_id();
    let id = store.create_at("C".to_string(), 1);
    assert_eq!(id, 8);
    assert_eq!(store.playlists.iter().filter(|p| p.id == id).count(), 1);
    assert_eq!(store.playlists.last().unwrap().modified_at, 1);
    assert_eq!(store.create_at("D".to_string(), 2), 9);
}

#[test]
fn added_track_is_listed_and_removal_undoes_it() {
    let mut store = PlaylistStore {
        playlists: vec![playlist(1, "A", vec![track("a", None), track("", None), track("a", None)], 0)],
        next_id: 2,
    };
    store.add_track_at(1, track("n", Some("c")), 3).unwrap();
    let listed = playlist_tracks(&store, 1).unwrap();
    assert!(listed.iter().any(|t| t.id == "n"));
    assert_eq!(listed.len(), 2);
    store.remove_track_at(1, "n", 4).unwrap();
    let ids: Vec<&str> = store.playlists[0].tracks.iter().map(|t| t.id.as_str()).collect();
    assert_eq!(ids, vec!["a", "", "a"]);
    store.remove_track_at(1, "a", 5).unwrap();
    assert!(!playlist_tracks(&store, 1).unwrap().iter().any(|t| t.id == "a"));
    assert!(!store.playlists[0].tracks.iter().any(|t| t.id == "a"));
}
