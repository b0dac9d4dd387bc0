use neri_player_desktop::library::{Playlist, PlaylistStore};
use neri_player_desktop::state::{TrackInfo, TrackSource};
use neri_player_desktop::sync::local::{
    base_snapshot, build_local_sync_data, completed_result, is_binary_name, is_favorites_name, is_local_name, live_favorites,
    needs_upload, resolve_system_id, save_synced_playlists, success_result, sync_song_to_track, track_to_sync_song_at,
    track_to_sync_song_pub,
};
use neri_player_desktop::sync::models::{SyncData, SyncFavoritePlaylist, SyncPlaylist, SyncSong};

fn track(id: &str) -> TrackInfo {
    TrackInfo {
        id: id.to_string(),
        title: "T".to_string(),
        artist: "A".to_string(),
        album: "Al".to_string(),
        duration_ms: 1234,
        source: TrackSource::Netease,
        url: "u".to_string(),
        cover_url: Some("c".to_string()),
    }
}

fn song(id: &str, album: &str, media: &str) -> SyncSong {
    let mut s = SyncSong::default();
    s.id = id.to_string();
    s.album = album.to_string();
    s.media_uri = media.to_string();
    s.name = "N".to_string();
    s
}

fn sp(id: &str, name: &str, songs: Vec<SyncSong>, deleted: bool) -> SyncPlaylist {
    SyncPlaylist { id: id.to_string(), name: name.to_string(), songs, created_at: 0, modified_at: 9, is_deleted: deleted }
}

#[test]
fn tracks_to_synchronised_songs() {
    let s = track_to_sync_song_at(&track("netease:123"), 77);
    assert_eq!((s.id.as_str(), s.media_uri.as_str(), s.added_at), ("123", "", 77));
    assert_eq!(s.duration_ms, 1234);
    assert_eq!(s.cover_url, "c");
    let y = track_to_sync_song_pub(&track("youtube:vid"));
    assert_eq!((y.id.as_str(), y.media_uri.as_str()), ("vid", "ytmusic://video/vid"));
    let b = track_to_sync_song_at(&track("bilibili:BV1"), 0);
    assert_eq!(b.id, "BV1");
    let l = track_to_sync_song_at(&track("local:/x.mp3"), 0);
    assert_eq!(l.id, "local:/x.mp3");
}

#[test]
fn synchronised_songs_to_tracks() {
    let y = sync_song_to_track(&song("ignored", "", "ytmusic://video/abc?playlistId=1"));
    assert_eq!(y.id, "youtube:abc");
    assert_eq!(y.source, TrackSource::Youtube);
    let b = sync_song_to_track(&song("BV9", "Bilibili|5", ""));
    assert_eq!(b.id, "bilibili:BV9");
    let n = sync_song_to_track(&song("42", "Album", ""));
    assert_eq!(n.id, "netease:42");
    assert_eq!(n.cover_url, None);
    let l = sync_song_to_track(&song("", "", ""));
    assert_eq!(l.source, TrackSource::Local);
    let mut c = song("1", "", "");
    c.custom_name = Some("Mine".to_string());
    c.duration_ms = -5;
    let t = sync_song_to_track(&c);
    assert_eq!(t.title, "Mine");
    assert_eq!(t.duration_ms, 0);
}

#[test]
fn system_playlists_are_recognised() {
    assert!(is_favorites_name("我喜欢的音乐"));
    assert!(is_favorites_name("Liked Songs"));
    assert!(is_local_name("Local Music"));
    assert!(!is_local_name("Local"));
    assert_eq!(resolve_system_id("-1001", "x"), -1001);
    assert_eq!(resolve_system_id("abc", "本地音乐"), -1002);
    assert_eq!(resolve_system_id("17", "Mix"), 17);
    assert_eq!(resolve_system_id("-5", "Mix"), 0);
    assert_eq!(resolve_system_id("x", "Mix"), 0);
}

#[test]
fn merged_playlists_are_written_back() {
    let mut store = PlaylistStore {
        playlists: vec![Playlist { id: 3, name: "Road".to_string(), tracks: vec![], modified_at: 0 }],
        next_id: 4,
    };
    let mut merged = SyncData::default();
    merged.playlists = vec![
        sp("local-1", "Local Music", vec![song("1", "", "")], false),
        sp("x", "Road", vec![song("1", "", ""), song("1", "", ""), song("", "", "")], false),
        sp("9", "Gone", vec![], true),
        sp("7", "Mix", vec![], false),
        sp("8", " Mix ", vec![], false),
        sp("y", "New", vec![], false),
        sp("-1001", "Favs", vec![], false),
    ];
    save_synced_playlists(&mut store, &merged);
    let ids: Vec<i64> = store.playlists.iter().map(|p| p.id).collect();
    assert_eq!(ids, vec![-1001, 3, 7, 4, -1002]);
    assert_eq!(store.playlists[1].tracks.len(), 1);
    assert_eq!(store.playlists[1].tracks[0].id, "netease:1");
    assert_eq!(store.next_id, 8);
}

#[test]
fn written_back_playlists_have_distinct_ids() {
    let mut store = PlaylistStore {
        playlists: vec![Playlist { id: 1, name: "Old".to_string(), tracks: vec![], modified_at: 0 }],
        next_id: 2,
    };
    let mut merged = SyncData::default();
    merged.playlists = vec![
        sp("2", "A", vec![], false),
        sp("2", "B", vec![], false),
        sp("x", "C", vec![], false),
        sp("y", "Old", vec![], false),
        sp("1", "D", vec![], false),
    ];
    save_synced_playlists(&mut store, &merged);
    let ids: Vec<i64> = store.playlists.iter().map(|p| p.id).collect();
    assert_eq!(ids, vec![2, 3, 4, 1, 5]);
    assert_eq!(store.next_id, 6);
}

#[test]
fn fresh_ids_count_on_from_the_store() {
    let mut store = PlaylistStore { playlists: vec![], next_id: 1 };
    let mut merged = SyncData::default();
    merged.playlists = vec![sp("5", "A", vec![], false), sp("abc", "B", vec![], false)];
    save_synced_playlists(&mut store, &merged);
    let ids: Vec<i64> = store.playlists.iter().map(|p| p.id).collect();
    assert_eq!(ids, vec![5, 1]);
    assert_eq!(store.next_id, 6);
}

#[test]
fn snapshot_and_favourites_kept() {
    let mut merged = SyncData::default();
    merged.playlists = vec![sp("a", "A", vec![song("1", "al", "m")], false), sp("b", "B", vec![], true)];
    let snap = base_snapshot(&merged);
    assert_eq!(snap.len(), 1);
    assert_eq!(snap[0].playlist_id, "a");
    assert_eq!(snap[0].song_keys, vec!["1|al|m".to_string()]);
    let fav = |deleted: bool| SyncFavoritePlaylist {
        id: "f".to_string(),
        name: "F".to_string(),
        cover_url: String::new(),
        track_count: 0,
        source: "netease".to_string(),
        songs: vec![],
        added_time: 0,
        modified_at: 0,
        is_deleted: deleted,
        sort_order: 0,
        browse_id: None,
        playlist_id: None,
        subtitle: None,
    };
    merged.favorite_playlists = vec![fav(false), fav(true)];
    assert_eq!(live_favorites(&merged).len(), 1);
}

#[test]
fn sync_outcomes() {
    let mut remote = SyncData::default();
    remote.playlists = vec![sp("a", "A", vec![song("1", "", "")], false)];
    let mut merged = SyncData::default();
    merged.playlists = vec![sp("a", "A", vec![song("1", "", ""), song("2", "", "")], false), sp("b", "B", vec![], false)];
    let r = completed_result(&merged, &remote);
    assert!(r.success);
    assert_eq!(r.message, "Sync complete");
    assert_eq!((r.playlists_added, r.songs_added), (1, 1));
    let back = completed_result(&remote, &merged);
    assert_eq!((back.playlists_added, back.songs_added), (0, 0));
    assert_eq!(success_result("Already up to date").message, "Already up to date");
    assert!(needs_upload(true, &remote, &remote));
    assert!(!needs_upload(false, &remote, &remote));
    assert!(needs_upload(false, &remote, &merged));
    assert!(is_binary_name("backup.bin"));
    assert!(!is_binary_name("backup.json"));
}

#[test]
fn local_data_for_synchronisation() {
    let store = PlaylistStore {
        playlists: vec![Playlist { id: 12, name: "P".to_string(), tracks: vec![track("netease:5")], modified_at: 99 }],
        next_id: 13,
    };
    let d = build_local_sync_data(&store, "dev-1".to_string(), "host");
    assert_eq!(d.version, "2.0");
    assert_eq!(d.device_id, "dev-1");
    assert_eq!(d.device_name, "NeriPlayer Desktop (host)");
    assert_eq!(d.playlists[0].id, "12");
    assert_eq!(d.playlists[0].created_at, 99);
    assert_eq!(d.playlists[0].songs[0].id, "5");
    assert!(d.favorite_playlists.is_empty());
}

#[test]
fn written_back_playlists_have_distinct_names() {
    let mut store = PlaylistStore { playlists: vec![], next_id: 1 };
    let mut merged = SyncData::default();
    merged.playlists = vec![
        sp("1", "A", vec![], false),
        sp("2", " A", vec![], false),
        sp("3", "B", vec![], false),
        sp("4", "A ", vec![], false),
        sp("5", "我喜欢的音乐", vec![], false),
        sp("6", "B", vec![], false),
    ];
    save_synced_playlists(&mut store, &merged);
    let names: Vec<String> = store.playlists.iter().map(|p| p.name.trim().to_string()).collect();
    assert_eq!(names, vec!["我喜欢的音乐", "A", "B"]);
    for i in 0..names.len() {
        for j in i + 1..names.len() {
            assert_ne!(names[i], names[j]);
        }
    }
}

#[test]
fn track_comes_back_from_its_synchronised_form() {
    let mut t = track("netease:42");
    t.url = String::new();
    let back = sync_song_to_track(&track_to_sync_song_at(&t, 1));
    assert_eq!(back.id, t.id);
    assert_eq!((back.title.as_str(), back.artist.as_str(), back.album.as_str()), ("T", "A", "Al"));
    assert_eq!(back.duration_ms, 1234);
    assert_eq!(back.cover_url, t.cover_url);
    assert_eq!(back.source, TrackSource::Netease);
    assert_eq!(back.url, "");
    let mut y = track("youtube:abc");
    y.cover_url = None;
    let back = sync_song_to_track(&track_to_sync_song_at(&y, 1));
    assert_eq!(back.id, "youtube:abc");
    assert_eq!(back.source, TrackSource::Youtube);
    assert_eq!(back.cover_url, None);
}
