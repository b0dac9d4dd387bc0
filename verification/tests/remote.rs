use neri_player_desktop::sync::models::{GitHubSyncConfig, WebDavSyncConfig};
use neri_player_desktop::sync::remote::{
    bearer, contents_url, create_repo_outcome, decode_file_content, encode_file_content, sha256_fingerprint,
    webdav_connection_outcome, webdav_get_outcome, webdav_put_outcome, webdav_url,
};
use neri_player_desktop::sync::settings::{
    fresh_github_config, fresh_webdav_config, import_desktop_playlists, require_github_configured, require_token,
    update_github_settings, update_webdav_settings,
};
use neri_player_desktop::library::{Playlist, PlaylistStore};

#[test]
fn github_file_content_round_trip() {
    let text = "{\"version\":\"2.0\",\"name\":\"歌单\"}";
    let b64 = encode_file_content(text);
    let wrapped = format!("{}\n{}", &b64[..10], &b64[10..]);
    assert_eq!(decode_file_content(&wrapped).ok().unwrap(), text);
    assert!(decode_file_content("@@@").err().unwrap().message().starts_with("Base64 decode error: "));
    assert!(decode_file_content("/w==").err().unwrap().message().starts_with("UTF-8 decode error: "));
}

#[test]
fn github_urls_and_outcomes() {
    assert_eq!(contents_url("me", "repo", "backup.bin"), "https://api.github.com/repos/me/repo/contents/backup.bin");
    assert_eq!(bearer("t"), "Bearer t");
    assert!(create_repo_outcome(201, true, "").is_ok());
    assert!(create_repo_outcome(422, false, "name already exists on this account").is_ok());
    assert_eq!(create_repo_outcome(500, false, "boom").err().unwrap().message(), "Failed to create repo (500): boom");
}

#[test]
fn webdav_urls_fingerprints_and_outcomes() {
    assert_eq!(webdav_url("https://dav.example.com//", ""), "https://dav.example.com/neriplayer-sync.json");
    assert_eq!(webdav_url("https://dav.example.com", "/backup/np/"), "https://dav.example.com/backup/np/neriplayer-sync.json");
    assert_eq!(sha256_fingerprint("hello"), "2cf24dba5fb0a30e26e83b2ac5b9e29e1b161e5c1fa7425e73043362938b9824");
    assert!(webdav_connection_outcome(404).is_ok());
    assert_eq!(webdav_connection_outcome(403).err().unwrap().message(), "WebDAV authentication failed");
    assert_eq!(webdav_connection_outcome(500).err().unwrap().message(), "WebDAV connection failed (500)");
    assert_eq!(webdav_get_outcome(404, false).ok(), Some(false));
    assert_eq!(webdav_get_outcome(200, true).ok(), Some(true));
    assert_eq!(webdav_get_outcome(502, false).err().unwrap().message(), "WebDAV GET failed (502)");
    assert!(webdav_put_outcome(201, true).is_ok());
    assert_eq!(webdav_put_outcome(507, false).err().unwrap().message(), "WebDAV PUT failed (507)");
}

#[test]
fn sync_settings() {
    let c = fresh_github_config("tok".to_string(), "me".to_string(), "repo".to_string());
    assert!(c.auto_sync && c.data_saver);
    assert_eq!(c.last_sync_time, 0);
    let mut empty = GitHubSyncConfig::default();
    assert_eq!(require_token(&empty).err().unwrap().message(), "Token not validated yet");
    assert_eq!(require_github_configured(&empty).err().unwrap().message(), "GitHub sync not configured");
    assert!(update_github_settings(&mut empty, Some(true), None, None, None).is_err());
    let mut c = c;
    assert!(update_github_settings(&mut c, Some(false), None, Some(true), Some("batched".to_string())).is_ok());
    assert!(!c.auto_sync && c.data_saver && c.silent_failures);
    assert_eq!(c.history_update_mode, "batched");
    let mut w = fresh_webdav_config("https://d".to_string(), "u".to_string(), "p".to_string(), None);
    assert!(w.auto_sync);
    assert_eq!(w.base_path, "");
    assert!(update_webdav_settings(&mut w, Some(false)).is_ok());
    assert!(!w.auto_sync);
    let mut none = WebDavSyncConfig::default();
    assert_eq!(update_webdav_settings(&mut none, None).err().unwrap().message(), "WebDAV sync not configured");
}

#[test]
fn desktop_import_skips_known_names() {
    let p = |id: i64, name: &str| Playlist { id, name: name.to_string(), tracks: vec![], modified_at: 0 };
    let mut store = PlaylistStore { playlists: vec![p(1, "A")], next_id: 2 };
    let n = import_desktop_playlists(&mut store, vec![p(5, "A"), p(6, "B"), p(7, "B")]);
    assert_eq!(n, 3);
    assert_eq!(store.playlists.iter().map(|x| x.id).collect::<Vec<_>>(), vec![1, 6]);
}
