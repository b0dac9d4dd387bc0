use vstd::prelude::*;
use crate::error::AppError;
use crate::library::{LocalPlaylistView, Playlist, PlaylistStore, playlist_views};
use crate::sync::models::{GitHubSyncConfig, WebDavSyncConfig};
use crate::text::{str_eq, str_to_string};

verus! {

/// The error of an operation that needs settings that are not there.
pub open spec fn is_api_error(e: AppError, message: Seq<char>) -> bool {
    e matches AppError::Api(m) && m@ == message
}

/// A repository chosen with a validated token: automatic synchronisation
/// and data saving on, nothing synchronised yet.
pub open spec fn is_fresh_github_config(c: GitHubSyncConfig, token: Seq<char>, owner: Seq<char>, repo: Seq<char>) -> bool {
    &&& c.token@ == token
    &&& c.owner@ == owner
    &&& c.repo@ == repo
    &&& c.last_remote_sha@.len() == 0
    &&& c.last_sync_time == 0
    &&& c.auto_sync
    &&& c.data_saver
    &&& !c.silent_failures
    &&& c.history_update_mode@.len() == 0
}

/// The settings after a repository is chosen.
pub fn fresh_github_config(token: String, owner: String, repo: String) -> (r: GitHubSyncConfig)
    ensures
        is_fresh_github_config(r, token@, owner@, repo@),
{
    let mut c = GitHubSyncConfig::default();
    c.token = token;
    c.owner = owner;
    c.repo = repo;
    c.auto_sync = true;
    c.data_saver = true;
    c
}

/// A repository can be chosen only once a token was validated.
pub fn require_token(config: &GitHubSyncConfig) -> (r: Result<(), AppError>)
    ensures
        config.token@.len() > 0 ==> r is Ok,
        config.token@.len() == 0 ==> (r matches Err(e) && is_api_error(e, "Token not validated yet"@)),
{
    if config.token.as_str().is_empty() {
        Err(AppError::Api(str_to_string("Token not validated yet")))
    } else {
        Ok(())
    }
}

/// Synchronising through GitHub needs a token.
pub fn require_github_configured(config: &GitHubSyncConfig) -> (r: Result<(), AppError>)
    ensures
        config.token@.len() > 0 ==> r is Ok,
        config.token@.len() == 0 ==> (r matches Err(e) && is_api_error(e, "GitHub sync not configured"@)),
{
    if config.token.as_str().is_empty() {
        Err(AppError::Api(str_to_string("GitHub sync not configured")))
    } else {
        Ok(())
    }
}

/// Synchronising through WebDAV needs a server.
pub fn require_webdav_configured(config: &WebDavSyncConfig) -> (r: Result<(), AppError>)
    ensures
        config.server_url@.len() > 0 ==> r is Ok,
        config.server_url@.len() == 0 ==> (r matches Err(e) && is_api_error(e, "WebDAV sync not configured"@)),
{
    if config.server_url.as_str().is_empty() {
        Err(AppError::Api(str_to_string("WebDAV sync not configured")))
    } else {
        Ok(())
    }
}

/// Changes the GitHub synchronisation settings that are given, once it is
/// configured.
pub fn update_github_settings(
    config: &mut GitHubSyncConfig,
    auto_sync: Option<bool>,
    data_saver: Option<bool>,
    silent_failures: Option<bool>,
    history_update_mode: Option<String>,
) -> (r: Result<(), AppError>)
    ensures
        old(config).token@.len() == 0 ==> (r matches Err(e) && is_api_error(e, "GitHub sync not configured"@))
            && *final(config) == *old(config),
        old(config).token@.len() > 0 ==> r is Ok && final(config).token == old(config).token && final(config).owner
            == old(config).owner && final(config).repo == old(config).repo && final(config).last_remote_sha == old(
            config,
        ).last_remote_sha && final(config).last_sync_time == old(config).last_sync_time && final(config).auto_sync
            == (match auto_sync {
            Some(v) => v,
            None => old(config).auto_sync,
        }) && final(config).data_saver == (match data_saver {
            Some(v) => v,
            None => old(config).data_saver,
        }) && final(config).silent_failures == (match silent_failures {
            Some(v) => v,
            None => old(config).silent_failures,
        }) && final(config).history_update_mode == (match history_update_mode {
            Some(v) => v,
            None => old(config).history_update_mode,
        }),
{
    if config.token.as_str().is_empty() {
        return Err(AppError::Api(str_to_string("GitHub sync not configured")));
    }
    match auto_sync {
        Some(v) => {
            config.auto_sync = v;
        },
        None => {},
    }
    match data_saver {
        Some(v) => {
            config.data_saver = v;
        },
        None => {},
    }
    match silent_failures {
        Some(v) => {
            config.silent_failures = v;
        },
        None => {},
    }
    match history_update_mode {
        Some(v) => {
            config.history_update_mode = v;
        },
        None => {},
    }
    Ok(())
}

/// Changes the WebDAV automatic synchronisation setting when it is given,
/// once WebDAV is configured.
pub fn update_webdav_settings(config: &mut WebDavSyncConfig, auto_sync: Option<bool>) -> (r: Result<(), AppError>)
    ensures
        old(config).server_url@.len() == 0 ==> (r matches Err(e) && is_api_error(e, "WebDAV sync not configured"@))
            && *final(config) == *old(config),
        old(config).server_url@.len() > 0 ==> r is Ok && final(config).server_url == old(config).server_url
            && final(config).username == old(config).username && final(config).password == old(config).password
            && final(config).base_path == old(config).base_path && final(config).last_remote_fingerprint == old(
            config,
        ).last_remote_fingerprint && final(config).last_sync_time == old(config).last_sync_time
            && final(config).auto_sync == (match auto_sync {
            Some(v) => v,
            None => old(config).auto_sync,
        }),
{
    if config.server_url.as_str().is_empty() {
        return Err(AppError::Api(str_to_string("WebDAV sync not configured")));
    }
    match auto_sync {
        Some(v) => {
            config.auto_sync = v;
        },
        None => {},
    }
    Ok(())
}

/// The WebDAV settings after a server is configured: automatic
/// synchronisation on, nothing synchronised yet, no base path when none is
/// given.
pub fn fresh_webdav_config(server_url: String, username: String, password: String, base_path: Option<String>) -> (r: WebDavSyncConfig)
    ensures
        r.server_url@ == server_url@,
        r.username@ == username@,
        r.password@ == password@,
        r.base_path@ == (match base_path {
            Some(b) => b@,
            None => Seq::<char>::empty(),
        }),
        r.last_remote_fingerprint@.len() == 0,
        r.last_sync_time == 0,
        r.auto_sync,
{
    let mut c = WebDavSyncConfig::default();
    c.server_url = server_url;
    c.username = username;
    c.password = password;
    c.base_path = match base_path {
        Some(b) => b,
        None => String::new(),
    };
    c.auto_sync = true;
    c
}

/// Some playlist of `ps` is named `name`.
pub open spec fn has_name(ps: Seq<LocalPlaylistView>, name: Seq<char>) -> bool {
    exists|i: int| 0 <= i < ps.len() && (#[trigger] ps[i]).name == name
}

/// The playlists after desktop playlists are imported in order: each one
/// whose name is not there yet (counting those imported before it) is
/// appended.
pub open spec fn imported(ps: Seq<LocalPlaylistView>, new: Seq<LocalPlaylistView>) -> Seq<LocalPlaylistView>
    decreases new.len(),
{
    if new.len() == 0 {
        ps
    } else {
        let before = imported(ps, new.drop_last());
        if has_name(before, new.last().name) { before } else { before.push(new.last()) }
    }
}

fn has_name_exec(ps: &Vec<Playlist>, name: &str) -> (r: bool)
    ensures
        r == has_name(playlist_views(ps@), name@),
{
    let mut i: usize = 0;
    while i < ps.len()
        invariant
            i <= ps@.len(),
            forall|k: int| 0 <= k < i ==> (#[trigger] ps@[k]).name@ != name@,
        decreases ps@.len() - i,
    {
        if str_eq(ps[i].name.as_str(), name) {
            assert(playlist_views(ps@)[i as int].name == name@);
            return true;
        }
        i = i + 1;
    }
    false
}

/// Imports playlists in the desktop format: each whose name the store does
/// not have yet is appended; gives how many were read.
pub fn import_desktop_playlists(store: &mut PlaylistStore, playlists: Vec<Playlist>) -> (r: usize)
    ensures
        r == playlists@.len(),
        playlist_views(final(store).playlists@) == imported(playlist_views(old(store).playlists@), playlist_views(playlists@)),
        final(store).next_id == old(store).next_id,
{
    let ghost start = playlist_views(store.playlists@);
    let ghost new = playlist_views(playlists@);
    let n = playlists.len();
    let mut i: usize = 0;
    while i < n
        invariant
            i <= n,
            n == playlists@.len(),
            new == playlist_views(playlists@),
            store.next_id == old(store).next_id,
            playlist_views(store.playlists@) == imported(start, new.take(i as int)),
        decreases n - i,
    {
        assert(new.take(i + 1).drop_last() =~= new.take(i as int));
        let p = playlists[i].clone();
        if !has_name_exec(&store.playlists, p.name.as_str()) {
            let ghost prev = store.playlists@;
            store.playlists.push(p);
            assert(playlist_views(store.playlists@) =~= playlist_views(prev).push(p@));
        }
        i = i + 1;
    }
    assert(new.take(n as int) =~= new);
    n
}

} // verus!
