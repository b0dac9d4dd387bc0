use neri_player_desktop::sync::codec::{
    get_filename, proto_to_sync_data, proto_to_sync_song, sync_data_to_proto, sync_song_to_proto, ProtoSyncRecentPlay,
};
use neri_player_desktop::sync::compact::{compress_bytes, decompress_bytes};
use neri_player_desktop::sync::codec::proto_to_recent_play;
use neri_player_desktop::sync::models::{SyncData, SyncLogEntry, SyncPlaylist, SyncSong};

fn song() -> SyncSong {
    let mut s = SyncSong::default();
    s.id = "1234".to_string();
    s.name = "Name".to_string();
    s.album_id = "77".to_string();
    s.cover_url = "http://c".to_string();
    s.user_lyric_offset_ms = Some(-40);
    s.custom_name = Some("Custom".to_string());
    s
}

#[test]
fn filenames_by_mode() {
    assert_eq!(get_filename(true), "backup.bin");
    assert_eq!(get_filename(false), "backup.json");
}

#[test]
fn song_to_compact_form() {
    let p = sync_song_to_proto(&song());
    assert_eq!(p.id, 1234);
    assert_eq!(p.album_id, 77);
    assert_eq!(p.cover_url.as_deref(), Some("http://c"));
    assert_eq!(p.media_uri, None);
    assert_eq!(p.user_lyric_offset_ms, -40);
    assert_eq!(p.custom_name.as_deref(), Some("Custom"));
    assert_eq!(p.original_lyric, None);
}

#[test]
fn song_survives_the_compact_form() {
    let s = song();
    let back = proto_to_sync_song(&sync_song_to_proto(&s));
    assert_eq!(back.id, s.id);
    assert_eq!(back.album_id, s.album_id);
    assert_eq!(back.cover_url, s.cover_url);
    assert_eq!(back.media_uri, s.media_uri);
    assert_eq!(back.user_lyric_offset_ms, s.user_lyric_offset_ms);
    assert_eq!(back.custom_name, s.custom_name);
}

#[test]
fn ids_that_are_not_numbers_become_zero() {
    let mut s = song();
    s.id = "abc".to_string();
    s.album_id = String::new();
    let p = sync_song_to_proto(&s);
    assert_eq!(p.id, 0);
    assert_eq!(p.album_id, 0);
    let back = proto_to_sync_song(&p);
    assert_eq!(back.id, "0");
}

#[test]
fn a_play_without_its_song_gets_a_bare_song() {
    let p = ProtoSyncRecentPlay { song_id: 42, song: None, played_at: 9, device_id: "d".to_string() };
    let r = proto_to_recent_play(&p);
    assert_eq!(r.song_id, "42");
    assert_eq!(r.song.id, "42");
    assert_eq!(r.song.name, "");
    assert_eq!(r.played_at, 9);
}

#[test]
fn data_survives_the_compact_form() {
    let mut d = SyncData::default();
    d.version = String::new();
    d.device_id = "dev".to_string();
    d.playlists = vec![SyncPlaylist {
        id: "5".to_string(),
        name: "P".to_string(),
        songs: vec![song()],
        created_at: 1,
        modified_at: 2,
        is_deleted: false,
    }];
    d.sync_log = vec![SyncLogEntry {
        timestamp: 3,
        device_id: "dev".to_string(),
        action: "add".to_string(),
        playlist_id: Some("5".to_string()),
        song_id: Some("x".to_string()),
        details: None,
    }];
    let back = proto_to_sync_data(&sync_data_to_proto(&d));
    assert_eq!(back.version, "2.0");
    assert_eq!(back.device_id, "dev");
    assert_eq!(back.playlists.len(), 1);
    assert_eq!(back.playlists[0].id, "5");
    assert_eq!(back.playlists[0].songs[0].name, "Name");
    assert_eq!(back.sync_log[0].action, "");
    assert_eq!(back.sync_log[0].playlist_id.as_deref(), Some("5"));
    assert_eq!(back.sync_log[0].song_id, None);
}

#[test]
fn compact_text_reads_back() {
    let bytes: Vec<u8> = (0u8..200).chain(0u8..50).collect();
    let text = compress_bytes(&bytes).ok().unwrap();
    assert!(text.chars().all(|c| c.is_ascii_alphanumeric() || c == '+' || c == '/' || c == '='));
    let back = decompress_bytes(&format!("  {}\n", text)).ok().unwrap();
    assert_eq!(back, bytes);
}

#[test]
fn bad_compact_text_is_refused_with_the_step() {
    let e = decompress_bytes("***").err().unwrap();
    assert!(e.message().starts_with("Base64 decode: "));
    let e = decompress_bytes("aGVsbG8=").err().unwrap();
    assert!(e.message().starts_with("GZIP decompress: "));
}
