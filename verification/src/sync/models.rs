use vstd::prelude::*;
use crate::text::{copy_string, push_str, str_to_string};

verus! {

/// Copy of an optional string.
pub fn copy_opt_string(o: &Option<String>) -> (r: Option<String>)
    ensures
        r == *o,
{
    match o {
        Some(s) => Some(s.clone()),
        None => None,
    }
}

/// Root envelope of the synchronised data.
pub struct SyncData {
    pub version: String,
    pub device_id: String,
    pub device_name: String,
    pub last_modified: i64,
    pub playlists: Vec<SyncPlaylist>,
    pub favorite_playlists: Vec<SyncFavoritePlaylist>,
    pub recent_plays: Vec<SyncRecentPlay>,
    pub sync_log: Vec<SyncLogEntry>,
    pub recent_play_deletions: Vec<SyncRecentPlayDeletion>,
}

/// The version that data written by this library carries.
pub open spec fn spec_default_version() -> Seq<char> {
    seq!['2', '.', '0']
}

/// The version assumed when the data names none.
pub fn default_version() -> (r: String)
    ensures
        r@ == spec_default_version(),
{
    let mut s = String::new();
    s.push('2');
    s.push('.');
    s.push('0');
    s
}

impl Default for SyncData {
    fn default() -> (r: Self)
        ensures
            r.version@ == Seq::<char>::empty(),
            r.device_id@ == Seq::<char>::empty(),
            r.device_name@ == Seq::<char>::empty(),
            r.last_modified == 0,
            r.playlists@ == Seq::<SyncPlaylist>::empty(),
            r.favorite_playlists@ == Seq::<SyncFavoritePlaylist>::empty(),
            r.recent_plays@ == Seq::<SyncRecentPlay>::empty(),
            r.sync_log@ == Seq::<SyncLogEntry>::empty(),
            r.recent_play_deletions@ == Seq::<SyncRecentPlayDeletion>::empty(),
    {
        SyncData {
            version: String::new(),
            device_id: String::new(),
            device_name: String::new(),
            last_modified: 0,
            playlists: Vec::new(),
            favorite_playlists: Vec::new(),
            recent_plays: Vec::new(),
            sync_log: Vec::new(),
            recent_play_deletions: Vec::new(),
        }
    }
}

/// A user playlist in synchronised form.
pub struct SyncPlaylist {
    pub id: String,
    pub name: String,
    pub songs: Vec<SyncSong>,
    pub created_at: i64,
    pub modified_at: i64,
    pub is_deleted: bool,
}

/// What a playlist holds, as plain values.
pub struct PlaylistView {
    pub id: Seq<char>,
    pub name: Seq<char>,
    pub songs: Seq<SyncSong>,
    pub created_at: i64,
    pub modified_at: i64,
    pub is_deleted: bool,
}

impl View for SyncPlaylist {
    type V = PlaylistView;

    open spec fn view(&self) -> PlaylistView {
        PlaylistView {
            id: self.id@,
            name: self.name@,
            songs: self.songs@,
            created_at: self.created_at,
            modified_at: self.modified_at,
            is_deleted: self.is_deleted,
        }
    }
}

impl Clone for SyncPlaylist {
    fn clone(&self) -> (r: Self)
        ensures
            r@ == self@,
    {
        SyncPlaylist {
            id: self.id.clone(),
            name: self.name.clone(),
            songs: clone_songs(&self.songs),
            created_at: self.created_at,
            modified_at: self.modified_at,
            is_deleted: self.is_deleted,
        }
    }
}

/// A song in synchronised form.
pub struct SyncSong {
    pub id: String,
    pub name: String,
    pub artist: String,
    pub album: String,
    pub album_id: String,
    pub duration_ms: i64,
    pub cover_url: String,
    pub media_uri: String,
    pub added_at: i64,
    pub lyric: Option<String>,
    pub translated_lyric: Option<String>,
    pub lyric_source: Option<String>,
    pub lyric_song_id: Option<String>,
    pub user_lyric_offset_ms: Option<i64>,
    pub custom_cover_url: Option<String>,
    pub custom_name: Option<String>,
    pub custom_artist: Option<String>,
    pub original_cover_url: Option<String>,
    pub original_name: Option<String>,
    pub original_artist: Option<String>,
    pub channel_id: Option<String>,
    pub audio_id: Option<String>,
    pub sub_audio_id: Option<String>,
    pub playlist_context_id: Option<String>,
}

impl Clone for SyncSong {
    fn clone(&self) -> (r: Self)
        ensures
            r == *self,
    {
        SyncSong {
            id: self.id.clone(),
            name: self.name.clone(),
            artist: self.artist.clone(),
            album: self.album.clone(),
            album_id: self.album_id.clone(),
            duration_ms: self.duration_ms,
            cover_url: self.cover_url.clone(),
            media_uri: self.media_uri.clone(),
            added_at: self.added_at,
            lyric: copy_opt_string(&self.lyric),
            translated_lyric: copy_opt_string(&self.translated_lyric),
            lyric_source: copy_opt_string(&self.lyric_source),
            lyric_song_id: copy_opt_string(&self.lyric_song_id),
            user_lyric_offset_ms: self.user_lyric_offset_ms,
            custom_cover_url: copy_opt_string(&self.custom_cover_url),
            custom_name: copy_opt_string(&self.custom_name),
            custom_artist: copy_opt_string(&self.custom_artist),
            original_cover_url: copy_opt_string(&self.original_cover_url),
            original_name: copy_opt_string(&self.original_name),
            original_artist: copy_opt_string(&self.original_artist),
            channel_id: copy_opt_string(&self.channel_id),
            audio_id: copy_opt_string(&self.audio_id),
            sub_audio_id: copy_opt_string(&self.sub_audio_id),
            playlist_context_id: copy_opt_string(&self.playlist_context_id),
        }
    }
}

impl Default for SyncSong {
    fn default() -> (r: Self)
        ensures
            r.id@ == Seq::<char>::empty(),
            r.name@ == Seq::<char>::empty(),
            r.artist@ == Seq::<char>::empty(),
            r.album@ == Seq::<char>::empty(),
            r.album_id@ == Seq::<char>::empty(),
            r.duration_ms == 0,
            r.cover_url@ == Seq::<char>::empty(),
            r.media_uri@ == Seq::<char>::empty(),
            r.added_at == 0,
            r.lyric is None,
            r.translated_lyric is None,
            r.lyric_source is None,
            r.lyric_song_id is None,
            r.user_lyric_offset_ms is None,
            r.custom_cover_url is None,
            r.custom_name is None,
            r.custom_artist is None,
            r.original_cover_url is None,
            r.original_name is None,
            r.original_artist is None,
            r.channel_id is None,
            r.audio_id is None,
            r.sub_audio_id is None,
            r.playlist_context_id is None,
    {
        SyncSong {
            id: String::new(),
            name: String::new(),
            artist: String::new(),
            album: String::new(),
            album_id: String::new(),
            duration_ms: 0,
            cover_url: String::new(),
            media_uri: String::new(),
            added_at: 0,
            lyric: None,
            translated_lyric: None,
            lyric_source: None,
            lyric_song_id: None,
            user_lyric_offset_ms: None,
            custom_cover_url: None,
            custom_name: None,
            custom_artist: None,
            original_cover_url: None,
            original_name: None,
            original_artist: None,
            channel_id: None,
            audio_id: None,
            sub_audio_id: None,
            playlist_context_id: None,
        }
    }
}

/// Copy of a list of songs.
pub fn clone_songs(v: &Vec<SyncSong>) -> (r: Vec<SyncSong>)
    ensures
        r@ == v@,
{
    let mut r: Vec<SyncSong> = Vec::new();
    let mut i: usize = 0;
    while i < v.len()
        invariant
            i <= v.len(),
            r@ == v@.take(i as int),
        decreases v.len() - i,
    {
        r.push(v[i].clone());
        i = i + 1;
        assert(r@ =~= v@.take(i as int));
    }
    assert(v@.take(v.len() as int) =~= v@);
    r
}

/// The identity of a song: what tells two songs apart when lists are merged.
pub struct SongIdentity {
    pub id: String,
    pub album: String,
    pub media_uri: String,
}

/// `id|album|media_uri`.
pub open spec fn identity_key(id: Seq<char>, album: Seq<char>, media_uri: Seq<char>) -> Seq<char> {
    id + seq!['|'] + album + seq!['|'] + media_uri
}

/// The stable key of a song.
pub open spec fn song_key(s: SyncSong) -> Seq<char> {
    identity_key(s.id@, s.album@, s.media_uri@)
}

/// `s` holds no `|`.
pub open spec fn bar_free(s: Seq<char>) -> bool {
    forall|i: int| 0 <= i < s.len() ==> s[i] != '|'
}

proof fn lemma_split_at_first_bar(x: Seq<char>, y: Seq<char>, x2: Seq<char>, y2: Seq<char>)
    requires
        bar_free(x),
        bar_free(x2),
        x + seq!['|'] + y == x2 + seq!['|'] + y2,
    ensures
        x == x2,
        y == y2,
{
    let k = x + seq!['|'] + y;
    let k2 = x2 + seq!['|'] + y2;
    if x.len() < x2.len() {
        assert(k[x.len() as int] == '|');
        assert(k2[x.len() as int] == x2[x.len() as int]);
    } else if x2.len() < x.len() {
        assert(k2[x2.len() as int] == '|');
        assert(k[x2.len() as int] == x[x2.len() as int]);
    }
    assert(x =~= k.subrange(0, x.len() as int));
    assert(x2 =~= k2.subrange(0, x2.len() as int));
    assert(y =~= k.subrange(x.len() as int + 1, k.len() as int));
    assert(y2 =~= k2.subrange(x2.len() as int + 1, k2.len() as int));
}

/// The stable key tells identities apart: for ids and albums without `|`,
/// two identities have the same key exactly when they are the same.
pub proof fn law_stable_key_injective(
    id: Seq<char>,
    album: Seq<char>,
    media_uri: Seq<char>,
    id2: Seq<char>,
    album2: Seq<char>,
    media_uri2: Seq<char>,
)
    requires
        bar_free(id),
        bar_free(album),
        bar_free(id2),
        bar_free(album2),
    ensures
        identity_key(id, album, media_uri) == identity_key(id2, album2, media_uri2) <==> (id == id2 && album == album2
            && media_uri == media_uri2),
{
    if identity_key(id, album, media_uri) == identity_key(id2, album2, media_uri2) {
        assert(identity_key(id, album, media_uri) =~= id + seq!['|'] + (album + seq!['|'] + media_uri));
        assert(identity_key(id2, album2, media_uri2) =~= id2 + seq!['|'] + (album2 + seq!['|'] + media_uri2));
        lemma_split_at_first_bar(id, album + seq!['|'] + media_uri, id2, album2 + seq!['|'] + media_uri2);
        lemma_split_at_first_bar(album, media_uri, album2, media_uri2);
    }
}

impl SyncSong {
    /// The song's identity: its id, album and media URI.
    pub fn identity(&self) -> (r: SongIdentity)
        ensures
            r.id@ == self.id@,
            r.album@ == self.album@,
            r.media_uri@ == self.media_uri@,
    {
        SongIdentity { id: self.id.clone(), album: self.album.clone(), media_uri: self.media_uri.clone() }
    }
}

impl SongIdentity {
    /// `id|album|media_uri`, the key by which songs are compared.
    pub fn stable_key(&self) -> (r: String)
        ensures
            r@ == identity_key(self.id@, self.album@, self.media_uri@),
    {
        let mut s = copy_string(&self.id);
        s.push('|');
        push_str(&mut s, self.album.as_str());
        s.push('|');
        push_str(&mut s, self.media_uri.as_str());
        s
    }
}

/// `song.identity().stable_key()`.
pub fn song_stable_key(s: &SyncSong) -> (r: String)
    ensures
        r@ == song_key(*s),
{
    s.identity().stable_key()
}

/// One play of a song.
pub struct SyncRecentPlay {
    pub song_id: String,
    pub song: SyncSong,
    pub played_at: i64,
    pub device_id: String,
}

impl Clone for SyncRecentPlay {
    fn clone(&self) -> (r: Self)
        ensures
            r == *self,
    {
        SyncRecentPlay {
            song_id: self.song_id.clone(),
            song: self.song.clone(),
            played_at: self.played_at,
            device_id: self.device_id.clone(),
        }
    }
}

/// A record that a song was removed from the recent plays.
pub struct SyncRecentPlayDeletion {
    pub song_id: String,
    pub album: String,
    pub media_uri: String,
    pub deleted_at: i64,
    pub device_id: String,
}

impl Clone for SyncRecentPlayDeletion {
    fn clone(&self) -> (r: Self)
        ensures
            r == *self,
    {
        SyncRecentPlayDeletion {
            song_id: self.song_id.clone(),
            album: self.album.clone(),
            media_uri: self.media_uri.clone(),
            deleted_at: self.deleted_at,
            device_id: self.device_id.clone(),
        }
    }
}

/// The stable key of a deletion record.
pub open spec fn deletion_key(d: SyncRecentPlayDeletion) -> Seq<char> {
    identity_key(d.song_id@, d.album@, d.media_uri@)
}

impl SyncRecentPlayDeletion {
    /// The identity of the song that the record removes.
    pub fn identity(&self) -> (r: SongIdentity)
        ensures
            r.id@ == self.song_id@,
            r.album@ == self.album@,
            r.media_uri@ == self.media_uri@,
    {
        SongIdentity { id: self.song_id.clone(), album: self.album.clone(), media_uri: self.media_uri.clone() }
    }
}

/// A playlist of a streaming platform that the user keeps as a favourite.
pub struct SyncFavoritePlaylist {
    pub id: String,
    pub name: String,
    pub cover_url: String,
    pub track_count: i32,
    pub source: String,
    pub songs: Vec<SyncSong>,
    pub added_time: i64,
    pub modified_at: i64,
    pub is_deleted: bool,
    pub sort_order: i32,
    pub browse_id: Option<String>,
    pub playlist_id: Option<String>,
    pub subtitle: Option<String>,
}

/// What a favourite playlist holds, as plain values.
pub struct FavoriteView {
    pub id: Seq<char>,
    pub name: Seq<char>,
    pub cover_url: Seq<char>,
    pub track_count: i32,
    pub source: Seq<char>,
    pub songs: Seq<SyncSong>,
    pub added_time: i64,
    pub modified_at: i64,
    pub is_deleted: bool,
    pub sort_order: i32,
    pub browse_id: Option<String>,
    pub playlist_id: Option<String>,
    pub subtitle: Option<String>,
}

impl View for SyncFavoritePlaylist {
    type V = FavoriteView;

    open spec fn view(&self) -> FavoriteView {
        FavoriteView {
            id: self.id@,
            name: self.name@,
            cover_url: self.cover_url@,
            track_count: self.track_count,
            source: self.source@,
            songs: self.songs@,
            added_time: self.added_time,
            modified_at: self.modified_at,
            is_deleted: self.is_deleted,
            sort_order: self.sort_order,
            browse_id: self.browse_id,
            playlist_id: self.playlist_id,
            subtitle: self.subtitle,
        }
    }
}

impl Clone for SyncFavoritePlaylist {
    fn clone(&self) -> (r: Self)
        ensures
            r@ == self@,
    {
        SyncFavoritePlaylist {
            id: self.id.clone(),
            name: self.name.clone(),
            cover_url: self.cover_url.clone(),
            track_count: self.track_count,
            source: self.source.clone(),
            songs: clone_songs(&self.songs),
            added_time: self.added_time,
            modified_at: self.modified_at,
            is_deleted: self.is_deleted,
            sort_order: self.sort_order,
            browse_id: copy_opt_string(&self.browse_id),
            playlist_id: copy_opt_string(&self.playlist_id),
            subtitle: copy_opt_string(&self.subtitle),
        }
    }
}

/// `id_source`, the key by which favourite playlists are grouped.
pub open spec fn favorite_key(f: SyncFavoritePlaylist) -> Seq<char> {
    f.id@ + seq!['_'] + f.source@
}

impl SyncFavoritePlaylist {
    /// `id_source`.
    pub fn group_key(&self) -> (r: String)
        ensures
            r@ == favorite_key(*self),
    {
        let mut s = copy_string(&self.id);
        s.push('_');
        push_str(&mut s, self.source.as_str());
        s
    }
}

/// One entry of the synchronisation log.
pub struct SyncLogEntry {
    pub timestamp: i64,
    pub device_id: String,
    pub action: String,
    pub playlist_id: Option<String>,
    pub song_id: Option<String>,
    pub details: Option<String>,
}

impl Clone for SyncLogEntry {
    fn clone(&self) -> (r: Self)
        ensures
            r == *self,
    {
        SyncLogEntry {
            timestamp: self.timestamp,
            device_id: self.device_id.clone(),
            action: self.action.clone(),
            playlist_id: copy_opt_string(&self.playlist_id),
            song_id: copy_opt_string(&self.song_id),
            details: copy_opt_string(&self.details),
        }
    }
}

/// Outcome of one synchronisation.
pub struct SyncResult {
    pub success: bool,
    pub message: String,
    pub playlists_added: i32,
    pub playlists_updated: i32,
    pub playlists_deleted: i32,
    pub songs_added: i32,
    pub songs_removed: i32,
}

impl Default for SyncResult {
    fn default() -> (r: Self)
        ensures
            !r.success,
            r.message@ == Seq::<char>::empty(),
            r.playlists_added == 0,
            r.playlists_updated == 0,
            r.playlists_deleted == 0,
            r.songs_added == 0,
            r.songs_removed == 0,
    {
        SyncResult {
            success: false,
            message: String::new(),
            playlists_added: 0,
            playlists_updated: 0,
            playlists_deleted: 0,
            songs_added: 0,
            songs_removed: 0,
        }
    }
}

/// Settings of the synchronisation through a GitHub repository.
pub struct GitHubSyncConfig {
    pub token: String,
    pub owner: String,
    pub repo: String,
    pub last_remote_sha: String,
    pub last_sync_time: i64,
    pub auto_sync: bool,
    pub data_saver: bool,
    pub silent_failures: bool,
    pub history_update_mode: String,
}

/// Whether a missing `dataSaver` setting reads as on.
pub fn default_true() -> (r: bool)
    ensures
        r,
{
    true
}

/// The history update mode when the settings name none.
pub open spec fn spec_default_history_mode() -> Seq<char> {
    seq!['i', 'm', 'm', 'e', 'd', 'i', 'a', 't', 'e']
}

/// `"immediate"`.
pub fn default_history_mode() -> (r: String)
    ensures
        r@ == spec_default_history_mode(),
{
    let r = str_to_string("immediate");
    proof {
        reveal_strlit("immediate");
    }
    assert(r@ =~= spec_default_history_mode());
    r
}

impl Default for GitHubSyncConfig {
    fn default() -> (r: Self)
        ensures
            r.token@ == Seq::<char>::empty(),
            r.owner@ == Seq::<char>::empty(),
            r.repo@ == Seq::<char>::empty(),
            r.last_remote_sha@ == Seq::<char>::empty(),
            r.last_sync_time == 0,
            !r.auto_sync,
            !r.data_saver,
            !r.silent_failures,
            r.history_update_mode@ == Seq::<char>::empty(),
    {
        GitHubSyncConfig {
            token: String::new(),
            owner: String::new(),
            repo: String::new(),
            last_remote_sha: String::new(),
            last_sync_time: 0,
            auto_sync: false,
            data_saver: false,
            silent_failures: false,
            history_update_mode: String::new(),
        }
    }
}

/// Settings of the synchronisation through a WebDAV server.
pub struct WebDavSyncConfig {
    pub server_url: String,
    pub username: String,
    pub password: String,
    pub base_path: String,
    pub last_remote_fingerprint: String,
    pub last_sync_time: i64,
    pub auto_sync: bool,
}

impl Default for WebDavSyncConfig {
    fn default() -> (r: Self)
        ensures
            r.server_url@ == Seq::<char>::empty(),
            r.username@ == Seq::<char>::empty(),
            r.password@ == Seq::<char>::empty(),
            r.base_path@ == Seq::<char>::empty(),
            r.last_remote_fingerprint@ == Seq::<char>::empty(),
            r.last_sync_time == 0,
            !r.auto_sync,
    {
        WebDavSyncConfig {
            server_url: String::new(),
            username: String::new(),
            password: String::new(),
            base_path: String::new(),
            last_remote_fingerprint: String::new(),
            last_sync_time: 0,
            auto_sync: false,
        }
    }
}

/// The song keys that one playlist held after the last synchronisation.
pub struct SnapshotEntry {
    pub playlist_id: String,
    pub song_keys: Vec<String>,
}

} // verus!
