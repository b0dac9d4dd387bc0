use vstd::prelude::*;
use crate::decimal::{i64_to_string, int_decimal, law_i64_decimal_roundtrip, parse_i64, spec_parse_i64};
use crate::sync::models::{
    SyncData, SyncFavoritePlaylist, SyncLogEntry, SyncPlaylist, SyncRecentPlay, SyncRecentPlayDeletion, SyncSong,
    copy_opt_string, default_version, spec_default_version,
};
use crate::text::opt_view;

verus! {

/// Root of the compact binary form of the synchronised data.
pub struct ProtoSyncData {
    pub version: String,
    pub device_id: String,
    pub device_name: String,
    pub last_modified: i64,
    pub playlists: Vec<ProtoSyncPlaylist>,
    pub favorite_playlists: Vec<ProtoSyncFavoritePlaylist>,
    pub recent_plays: Vec<ProtoSyncRecentPlay>,
    pub sync_log: Vec<ProtoSyncLogEntry>,
    pub recent_play_deletions: Vec<ProtoSyncRecentPlayDeletion>,
}

/// A playlist in the compact form.
pub struct ProtoSyncPlaylist {
    pub id: i64,
    pub name: String,
    pub songs: Vec<ProtoSyncSong>,
    pub created_at: i64,
    pub modified_at: i64,
    pub is_deleted: bool,
}

/// A song in the compact form.
pub struct ProtoSyncSong {
    pub id: i64,
    pub name: String,
    pub artist: String,
    pub album: String,
    pub album_id: i64,
    pub duration_ms: i64,
    pub cover_url: Option<String>,
    pub media_uri: Option<String>,
    pub added_at: i64,
    pub matched_lyric: Option<String>,
    pub matched_translated_lyric: Option<String>,
    pub matched_lyric_source: Option<String>,
    pub matched_song_id: Option<String>,
    pub user_lyric_offset_ms: i64,
    pub custom_cover_url: Option<String>,
    pub custom_name: Option<String>,
    pub custom_artist: Option<String>,
    pub original_name: Option<String>,
    pub original_artist: Option<String>,
    pub original_cover_url: Option<String>,
    pub original_lyric: Option<String>,
    pub original_translated_lyric: Option<String>,
    pub channel_id: Option<String>,
    pub audio_id: Option<String>,
    pub sub_audio_id: Option<String>,
    pub playlist_context_id: Option<String>,
}

/// A play in the compact form.
pub struct ProtoSyncRecentPlay {
    pub song_id: i64,
    pub song: Option<ProtoSyncSong>,
    pub played_at: i64,
    pub device_id: String,
}

/// A deleted play in the compact form.
pub struct ProtoSyncRecentPlayDeletion {
    pub song_id: i64,
    pub album: String,
    pub media_uri: Option<String>,
    pub deleted_at: i64,
    pub device_id: String,
}

/// A favourite playlist in the compact form.
pub struct ProtoSyncFavoritePlaylist {
    pub id: i64,
    pub name: String,
    pub cover_url: Option<String>,
    pub track_count: i32,
    pub source: String,
    pub songs: Vec<ProtoSyncSong>,
    pub added_time: i64,
    pub modified_at: i64,
    pub is_deleted: bool,
    pub sort_order: i64,
    pub browse_id: Option<String>,
    pub playlist_id: Option<String>,
    pub subtitle: Option<String>,
}

/// A log entry in the compact form.
pub struct ProtoSyncLogEntry {
    pub timestamp: i64,
    pub device_id: String,
    pub action: i32,
    pub playlist_id: Option<i64>,
    pub song_id: Option<i64>,
    pub details: Option<String>,
}

/// The name of the file that holds the synchronised data.
pub open spec fn spec_filename(data_saver: bool) -> Seq<char> {
    if data_saver { "backup.bin"@ } else { "backup.json"@ }
}

/// `backup.bin` in data saver mode, `backup.json` otherwise.
pub fn get_filename(data_saver: bool) -> (r: &'static str)
    ensures
        r@ == spec_filename(data_saver),
{
    if data_saver { "backup.bin" } else { "backup.json" }
}

// ===== numbers and optional strings =====

/// The number an id string stands for: its decimal value, 0 when it is none.
pub open spec fn id_number(s: Seq<char>) -> i64 {
    match spec_parse_i64(s) {
        Some(v) => v,
        None => 0,
    }
}

/// `None` for an empty string.
pub open spec fn opt_nonempty(s: Seq<char>) -> Option<Seq<char>> {
    if s.len() == 0 { None } else { Some(s) }
}

/// The string, or an empty one.
pub open spec fn or_empty(o: Option<Seq<char>>) -> Seq<char> {
    match o {
        Some(s) => s,
        None => Seq::empty(),
    }
}

fn id_number_exec(s: &String) -> (r: i64)
    ensures
        r == id_number(s@),
{
    match parse_i64(s.as_str()) {
        Some(v) => v,
        None => 0,
    }
}

fn opt_nonempty_exec(s: &String) -> (r: Option<String>)
    ensures
        opt_view(r) == opt_nonempty(s@),
{
    if s.as_str().is_empty() { None } else { Some(s.clone()) }
}

fn or_empty_exec(o: &Option<String>) -> (r: String)
    ensures
        r@ == or_empty(opt_view(*o)),
{
    match o {
        Some(s) => s.clone(),
        None => String::new(),
    }
}

// ===== songs =====

/// `p` is the compact form of the song `s`.
pub open spec fn song_to_proto_spec(s: SyncSong, p: ProtoSyncSong) -> bool {
    &&& p.id == id_number(s.id@)
    &&& p.name@ == s.name@
    &&& p.artist@ == s.artist@
    &&& p.album@ == s.album@
    &&& p.album_id == id_number(s.album_id@)
    &&& p.duration_ms == s.duration_ms
    &&& opt_view(p.cover_url) == opt_nonempty(s.cover_url@)
    &&& opt_view(p.media_uri) == opt_nonempty(s.media_uri@)
    &&& p.added_at == s.added_at
    &&& p.matched_lyric == s.lyric
    &&& p.matched_translated_lyric == s.translated_lyric
    &&& p.matched_lyric_source == s.lyric_source
    &&& p.matched_song_id == s.lyric_song_id
    &&& p.user_lyric_offset_ms == (match s.user_lyric_offset_ms {
        Some(v) => v,
        None => 0,
    })
    &&& p.custom_cover_url == s.custom_cover_url
    &&& p.custom_name == s.custom_name
    &&& p.custom_artist == s.custom_artist
    &&& p.original_name == s.original_name
    &&& p.original_artist == s.original_artist
    &&& p.original_cover_url == s.original_cover_url
    &&& p.original_lyric is None
    &&& p.original_translated_lyric is None
    &&& p.channel_id == s.channel_id
    &&& p.audio_id == s.audio_id
    &&& p.sub_audio_id == s.sub_audio_id
    &&& p.playlist_context_id == s.playlist_context_id
}

/// `s` is the song that the compact form `p` holds.
pub open spec fn proto_to_song_spec(p: ProtoSyncSong, s: SyncSong) -> bool {
    &&& s.id@ == int_decimal(p.id as int)
    &&& s.name@ == p.name@
    &&& s.artist@ == p.artist@
    &&& s.album@ == p.album@
    &&& s.album_id@ == int_decimal(p.album_id as int)
    &&& s.duration_ms == p.duration_ms
    &&& s.cover_url@ == or_empty(opt_view(p.cover_url))
    &&& s.media_uri@ == or_empty(opt_view(p.media_uri))
    &&& s.added_at == p.added_at
    &&& s.lyric == p.matched_lyric
    &&& s.translated_lyric == p.matched_translated_lyric
    &&& s.lyric_source == p.matched_lyric_source
    &&& s.lyric_song_id == p.matched_song_id
    &&& s.user_lyric_offset_ms == (if p.user_lyric_offset_ms != 0 {
        Some(p.user_lyric_offset_ms)
    } else {
        None
    })
    &&& s.custom_cover_url == p.custom_cover_url
    &&& s.custom_name == p.custom_name
    &&& s.custom_artist == p.custom_artist
    &&& s.original_cover_url == p.original_cover_url
    &&& s.original_name == p.original_name
    &&& s.original_artist == p.original_artist
    &&& s.channel_id == p.channel_id
    &&& s.audio_id == p.audio_id
    &&& s.sub_audio_id == p.sub_audio_id
    &&& s.playlist_context_id == p.playlist_context_id
}

/// The compact form of a song.
pub fn sync_song_to_proto(s: &SyncSong) -> (p: ProtoSyncSong)
    ensures
        song_to_proto_spec(*s, p),
{
    ProtoSyncSong {
        id: id_number_exec(&s.id),
        name: s.name.clone(),
        artist: s.artist.clone(),
        album: s.album.clone(),
        album_id: id_number_exec(&s.album_id),
        duration_ms: s.duration_ms,
        cover_url: opt_nonempty_exec(&s.cover_url),
        media_uri: opt_nonempty_exec(&s.media_uri),
        added_at: s.added_at,
        matched_lyric: copy_opt_string(&s.lyric),
        matched_translated_lyric: copy_opt_string(&s.translated_lyric),
        matched_lyric_source: copy_opt_string(&s.lyric_source),
        matched_song_id: copy_opt_string(&s.lyric_song_id),
        user_lyric_offset_ms: match s.user_lyric_offset_ms {
            Some(v) => v,
            None => 0,
        },
        custom_cover_url: copy_opt_string(&s.custom_cover_url),
        custom_name: copy_opt_string(&s.custom_name),
        custom_artist: copy_opt_string(&s.custom_artist),
        original_name: copy_opt_string(&s.original_name),
        original_artist: copy_opt_string(&s.original_artist),
        original_cover_url: copy_opt_string(&s.original_cover_url),
        original_lyric: None,
        original_translated_lyric: None,
        channel_id: copy_opt_string(&s.channel_id),
        audio_id: copy_opt_string(&s.audio_id),
        sub_audio_id: copy_opt_string(&s.sub_audio_id),
        playlist_context_id: copy_opt_string(&s.playlist_context_id),
    }
}

/// The song that a compact form holds.
pub fn proto_to_sync_song(p: &ProtoSyncSong) -> (s: SyncSong)
    ensures
        proto_to_song_spec(*p, s),
{
    SyncSong {
        id: i64_to_string(p.id),
        name: p.name.clone(),
        artist: p.artist.clone(),
        album: p.album.clone(),
        album_id: i64_to_string(p.album_id),
        duration_ms: p.duration_ms,
        cover_url: or_empty_exec(&p.cover_url),
        media_uri: or_empty_exec(&p.media_uri),
        added_at: p.added_at,
        lyric: copy_opt_string(&p.matched_lyric),
        translated_lyric: copy_opt_string(&p.matched_translated_lyric),
        lyric_source: copy_opt_string(&p.matched_lyric_source),
        lyric_song_id: copy_opt_string(&p.matched_song_id),
        user_lyric_offset_ms: if p.user_lyric_offset_ms != 0 { Some(p.user_lyric_offset_ms) } else { None },
        custom_cover_url: copy_opt_string(&p.custom_cover_url),
        custom_name: copy_opt_string(&p.custom_name),
        custom_artist: copy_opt_string(&p.custom_artist),
        original_cover_url: copy_opt_string(&p.original_cover_url),
        original_name: copy_opt_string(&p.original_name),
        original_artist: copy_opt_string(&p.original_artist),
        channel_id: copy_opt_string(&p.channel_id),
        audio_id: copy_opt_string(&p.audio_id),
        sub_audio_id: copy_opt_string(&p.sub_audio_id),
        playlist_context_id: copy_opt_string(&p.playlist_context_id),
    }
}

/// `ps` are the compact forms of the songs `ss`, in order.
pub open spec fn songs_to_proto_spec(ss: Seq<SyncSong>, ps: Seq<ProtoSyncSong>) -> bool {
    &&& ps.len() == ss.len()
    &&& forall|i: int| 0 <= i < ss.len() ==> song_to_proto_spec(ss[i], #[trigger] ps[i])
}

/// `ss` are the songs that the compact forms `ps` hold, in order.
pub open spec fn proto_to_songs_spec(ps: Seq<ProtoSyncSong>, ss: Seq<SyncSong>) -> bool {
    &&& ss.len() == ps.len()
    &&& forall|i: int| 0 <= i < ps.len() ==> proto_to_song_spec(ps[i], #[trigger] ss[i])
}

fn songs_to_proto(ss: &Vec<SyncSong>) -> (r: Vec<ProtoSyncSong>)
    ensures
        songs_to_proto_spec(ss@, r@),
{
    let mut r: Vec<ProtoSyncSong> = Vec::new();
    let mut i: usize = 0;
    while i < ss.len()
        invariant
            i <= ss@.len(),
            r@.len() == i,
            forall|k: int| 0 <= k < i ==> song_to_proto_spec(ss@[k], #[trigger] r@[k]),
        decreases ss@.len() - i,
    {
        r.push(sync_song_to_proto(&ss[i]));
        i = i + 1;
    }
    r
}

fn proto_to_songs(ps: &Vec<ProtoSyncSong>) -> (r: Vec<SyncSong>)
    ensures
        proto_to_songs_spec(ps@, r@),
{
    let mut r: Vec<SyncSong> = Vec::new();
    let mut i: usize = 0;
    while i < ps.len()
        invariant
            i <= ps@.len(),
            r@.len() == i,
            forall|k: int| 0 <= k < i ==> proto_to_song_spec(ps@[k], #[trigger] r@[k]),
        decreases ps@.len() - i,
    {
        r.push(proto_to_sync_song(&ps[i]));
        i = i + 1;
    }
    r
}


// ===== playlists =====

/// `p` is the compact form of the playlist `s`.
pub open spec fn playlist_to_proto_spec(s: SyncPlaylist, p: ProtoSyncPlaylist) -> bool {
    &&& p.id == id_number(s.id@)
    &&& p.name@ == s.name@
    &&& songs_to_proto_spec(s.songs@, p.songs@)
    &&& p.created_at == s.created_at
    &&& p.modified_at == s.modified_at
    &&& p.is_deleted == s.is_deleted
}

/// `s` is the playlist that the compact form `p` holds.
pub open spec fn proto_to_playlist_spec(p: ProtoSyncPlaylist, s: SyncPlaylist) -> bool {
    &&& s.id@ == int_decimal(p.id as int)
    &&& s.name@ == p.name@
    &&& proto_to_songs_spec(p.songs@, s.songs@)
    &&& s.created_at == p.created_at
    &&& s.modified_at == p.modified_at
    &&& s.is_deleted == p.is_deleted
}

/// The compact form of a playlist.
pub fn sync_playlist_to_proto(s: &SyncPlaylist) -> (p: ProtoSyncPlaylist)
    ensures
        playlist_to_proto_spec(*s, p),
{
    ProtoSyncPlaylist {
        id: id_number_exec(&s.id),
        name: s.name.clone(),
        songs: songs_to_proto(&s.songs),
        created_at: s.created_at,
        modified_at: s.modified_at,
        is_deleted: s.is_deleted,
    }
}

/// The playlist that a compact form holds.
pub fn proto_to_sync_playlist(p: &ProtoSyncPlaylist) -> (s: SyncPlaylist)
    ensures
        proto_to_playlist_spec(*p, s),
{
    SyncPlaylist {
        id: i64_to_string(p.id),
        name: p.name.clone(),
        songs: proto_to_songs(&p.songs),
        created_at: p.created_at,
        modified_at: p.modified_at,
        is_deleted: p.is_deleted,
    }
}

// ===== favourite playlists =====

/// `p` is the compact form of the favourite playlist `f`.
pub open spec fn favorite_to_proto_spec(f: SyncFavoritePlaylist, p: ProtoSyncFavoritePlaylist) -> bool {
    &&& p.id == id_number(f.id@)
    &&& p.name@ == f.name@
    &&& opt_view(p.cover_url) == opt_nonempty(f.cover_url@)
    &&& p.track_count == f.track_count
    &&& p.source@ == f.source@
    &&& songs_to_proto_spec(f.songs@, p.songs@)
    &&& p.added_time == f.added_time
    &&& p.modified_at == f.modified_at
    &&& p.is_deleted == f.is_deleted
    &&& p.sort_order == f.sort_order as i64
    &&& p.browse_id == f.browse_id
    &&& p.playlist_id == f.playlist_id
    &&& p.subtitle == f.subtitle
}

/// `f` is the favourite playlist that the compact form `p` holds; the sort
/// order is cut to 32 bits.
pub open spec fn proto_to_favorite_spec(p: ProtoSyncFavoritePlaylist, f: SyncFavoritePlaylist) -> bool {
    &&& f.id@ == int_decimal(p.id as int)
    &&& f.name@ == p.name@
    &&& f.cover_url@ == or_empty(opt_view(p.cover_url))
    &&& f.track_count == p.track_count
    &&& f.source@ == p.source@
    &&& proto_to_songs_spec(p.songs@, f.songs@)
    &&& f.added_time == p.added_time
    &&& f.modified_at == p.modified_at
    &&& f.is_deleted == p.is_deleted
    &&& f.sort_order == p.sort_order as i32
    &&& f.browse_id == p.browse_id
    &&& f.playlist_id == p.playlist_id
    &&& f.subtitle == p.subtitle
}

/// The compact form of a favourite playlist.
pub fn fav_playlist_to_proto(f: &SyncFavoritePlaylist) -> (p: ProtoSyncFavoritePlaylist)
    ensures
        favorite_to_proto_spec(*f, p),
{
    ProtoSyncFavoritePlaylist {
        id: id_number_exec(&f.id),
        name: f.name.clone(),
        cover_url: opt_nonempty_exec(&f.cover_url),
        track_count: f.track_count,
        source: f.source.clone(),
        songs: songs_to_proto(&f.songs),
        added_time: f.added_time,
        modified_at: f.modified_at,
        is_deleted: f.is_deleted,
        sort_order: f.sort_order as i64,
        browse_id: copy_opt_string(&f.browse_id),
        playlist_id: copy_opt_string(&f.playlist_id),
        subtitle: copy_opt_string(&f.subtitle),
    }
}

/// The favourite playlist that a compact form holds.
pub fn proto_to_fav_playlist(p: &ProtoSyncFavoritePlaylist) -> (f: SyncFavoritePlaylist)
    ensures
        proto_to_favorite_spec(*p, f),
{
    SyncFavoritePlaylist {
        id: i64_to_string(p.id),
        name: p.name.clone(),
        cover_url: or_empty_exec(&p.cover_url),
        track_count: p.track_count,
        source: p.source.clone(),
        songs: proto_to_songs(&p.songs),
        added_time: p.added_time,
        modified_at: p.modified_at,
        is_deleted: p.is_deleted,
        sort_order: p.sort_order as i32,
        browse_id: copy_opt_string(&p.browse_id),
        playlist_id: copy_opt_string(&p.playlist_id),
        subtitle: copy_opt_string(&p.subtitle),
    }
}

// ===== plays, deletions and the log =====

/// `p` is the compact form of the play `r`.
pub open spec fn recent_to_proto_spec(r: SyncRecentPlay, p: ProtoSyncRecentPlay) -> bool {
    &&& p.song_id == id_number(r.song_id@)
    &&& p.song matches Some(q) && song_to_proto_spec(r.song, q)
    &&& p.played_at == r.played_at
    &&& p.device_id@ == r.device_id@
}

/// `s` is a song that holds nothing but the id `id`.
pub open spec fn bare_song(s: SyncSong, id: Seq<char>) -> bool {
    &&& s.id@ == id
    &&& s.name@.len() == 0
    &&& s.artist@.len() == 0
    &&& s.album@.len() == 0
    &&& s.album_id@.len() == 0
    &&& s.duration_ms == 0
    &&& s.cover_url@.len() == 0
    &&& s.media_uri@.len() == 0
    &&& s.added_at == 0
    &&& s.lyric is None
    &&& s.translated_lyric is None
    &&& s.lyric_source is None
    &&& s.lyric_song_id is None
    &&& s.user_lyric_offset_ms is None
    &&& s.custom_cover_url is None
    &&& s.custom_name is None
    &&& s.custom_artist is None
    &&& s.original_cover_url is None
    &&& s.original_name is None
    &&& s.original_artist is None
    &&& s.channel_id is None
    &&& s.audio_id is None
    &&& s.sub_audio_id is None
    &&& s.playlist_context_id is None
}

/// `r` is the play that the compact form `p` holds; a play without its song
/// gets a song that holds only the id.
pub open spec fn proto_to_recent_spec(p: ProtoSyncRecentPlay, r: SyncRecentPlay) -> bool {
    &&& r.song_id@ == int_decimal(p.song_id as int)
    &&& match p.song {
        Some(q) => proto_to_song_spec(q, r.song),
        None => bare_song(r.song, int_decimal(p.song_id as int)),
    }
    &&& r.played_at == p.played_at
    &&& r.device_id@ == p.device_id@
}

/// The compact form of a play.
pub fn recent_play_to_proto(r: &SyncRecentPlay) -> (p: ProtoSyncRecentPlay)
    ensures
        recent_to_proto_spec(*r, p),
{
    ProtoSyncRecentPlay {
        song_id: id_number_exec(&r.song_id),
        song: Some(sync_song_to_proto(&r.song)),
        played_at: r.played_at,
        device_id: r.device_id.clone(),
    }
}

/// The play that a compact form holds.
pub fn proto_to_recent_play(p: &ProtoSyncRecentPlay) -> (r: SyncRecentPlay)
    ensures
        proto_to_recent_spec(*p, r),
{
    let song = match &p.song {
        Some(q) => proto_to_sync_song(q),
        None => {
            let mut s = SyncSong::default();
            s.id = i64_to_string(p.song_id);
            s
        },
    };
    SyncRecentPlay { song_id: i64_to_string(p.song_id), song, played_at: p.played_at, device_id: p.device_id.clone() }
}

/// The number an optional id string stands for, when it stands for one.
pub open spec fn opt_id_number(o: Option<String>) -> Option<i64> {
    match o {
        Some(s) => spec_parse_i64(s@),
        None => None,
    }
}

/// The decimal form of an optional number.
pub open spec fn opt_decimal(o: Option<i64>) -> Option<Seq<char>> {
    match o {
        Some(v) => Some(int_decimal(v as int)),
        None => None,
    }
}

/// `p` is the compact form of the log entry `e`; the action is not kept.
pub open spec fn log_to_proto_spec(e: SyncLogEntry, p: ProtoSyncLogEntry) -> bool {
    &&& p.timestamp == e.timestamp
    &&& p.device_id@ == e.device_id@
    &&& p.action == 0
    &&& p.playlist_id == opt_id_number(e.playlist_id)
    &&& p.song_id == opt_id_number(e.song_id)
    &&& p.details == e.details
}

/// `e` is the log entry that the compact form `p` holds, with an empty action.
pub open spec fn proto_to_log_spec(p: ProtoSyncLogEntry, e: SyncLogEntry) -> bool {
    &&& e.timestamp == p.timestamp
    &&& e.device_id@ == p.device_id@
    &&& e.action@.len() == 0
    &&& opt_view(e.playlist_id) == opt_decimal(p.playlist_id)
    &&& opt_view(e.song_id) == opt_decimal(p.song_id)
    &&& e.details == p.details
}

fn opt_id_number_exec(o: &Option<String>) -> (r: Option<i64>)
    ensures
        r == opt_id_number(*o),
{
    match o {
        Some(s) => parse_i64(s.as_str()),
        None => None,
    }
}

fn opt_decimal_exec(o: Option<i64>) -> (r: Option<String>)
    ensures
        opt_view(r) == opt_decimal(o),
{
    match o {
        Some(v) => Some(i64_to_string(v)),
        None => None,
    }
}

/// The compact form of a log entry.
pub fn log_entry_to_proto(e: &SyncLogEntry) -> (p: ProtoSyncLogEntry)
    ensures
        log_to_proto_spec(*e, p),
{
    ProtoSyncLogEntry {
        timestamp: e.timestamp,
        device_id: e.device_id.clone(),
        action: 0,
        playlist_id: opt_id_number_exec(&e.playlist_id),
        song_id: opt_id_number_exec(&e.song_id),
        details: copy_opt_string(&e.details),
    }
}

/// The log entry that a compact form holds.
pub fn proto_to_log_entry(p: &ProtoSyncLogEntry) -> (e: SyncLogEntry)
    ensures
        proto_to_log_spec(*p, e),
{
    SyncLogEntry {
        timestamp: p.timestamp,
        device_id: p.device_id.clone(),
        action: String::new(),
        playlist_id: opt_decimal_exec(p.playlist_id),
        song_id: opt_decimal_exec(p.song_id),
        details: copy_opt_string(&p.details),
    }
}

/// `p` is the compact form of the deletion `d`.
pub open spec fn deletion_to_proto_spec(d: SyncRecentPlayDeletion, p: ProtoSyncRecentPlayDeletion) -> bool {
    &&& p.song_id == id_number(d.song_id@)
    &&& p.album@ == d.album@
    &&& opt_view(p.media_uri) == opt_nonempty(d.media_uri@)
    &&& p.deleted_at == d.deleted_at
    &&& p.device_id@ == d.device_id@
}

/// `d` is the deletion that the compact form `p` holds.
pub open spec fn proto_to_deletion_spec(p: ProtoSyncRecentPlayDeletion, d: SyncRecentPlayDeletion) -> bool {
    &&& d.song_id@ == int_decimal(p.song_id as int)
    &&& d.album@ == p.album@
    &&& d.media_uri@ == or_empty(opt_view(p.media_uri))
    &&& d.deleted_at == p.deleted_at
    &&& d.device_id@ == p.device_id@
}

/// The compact form of a deletion.
pub fn deletion_to_proto(d: &SyncRecentPlayDeletion) -> (p: ProtoSyncRecentPlayDeletion)
    ensures
        deletion_to_proto_spec(*d, p),
{
    ProtoSyncRecentPlayDeletion {
        song_id: id_number_exec(&d.song_id),
        album: d.album.clone(),
        media_uri: opt_nonempty_exec(&d.media_uri),
        deleted_at: d.deleted_at,
        device_id: d.device_id.clone(),
    }
}

/// The deletion that a compact form holds.
pub fn proto_to_deletion(p: &ProtoSyncRecentPlayDeletion) -> (d: SyncRecentPlayDeletion)
    ensures
        proto_to_deletion_spec(*p, d),
{
    SyncRecentPlayDeletion {
        song_id: i64_to_string(p.song_id),
        album: p.album.clone(),
        media_uri: or_empty_exec(&p.media_uri),
        deleted_at: p.deleted_at,
        device_id: p.device_id.clone(),
    }
}


// ===== the whole data =====

fn playlists_to_proto(v: &Vec<SyncPlaylist>) -> (r: Vec<ProtoSyncPlaylist>)
    ensures
        r@.len() == v@.len(),
        forall|i: int| 0 <= i < v@.len() ==> playlist_to_proto_spec(v@[i], #[trigger] r@[i]),
{
    let mut r: Vec<ProtoSyncPlaylist> = Vec::new();
    let mut i: usize = 0;
    while i < v.len()
        invariant
            i <= v@.len(),
            r@.len() == i,
            forall|k: int| 0 <= k < i ==> playlist_to_proto_spec(v@[k], #[trigger] r@[k]),
        decreases v@.len() - i,
    {
        r.push(sync_playlist_to_proto(&v[i]));
        i = i + 1;
    }
    r
}

fn proto_to_playlists(v: &Vec<ProtoSyncPlaylist>) -> (r: Vec<SyncPlaylist>)
    ensures
        r@.len() == v@.len(),
        forall|i: int| 0 <= i < v@.len() ==> proto_to_playlist_spec(v@[i], #[trigger] r@[i]),
{
    let mut r: Vec<SyncPlaylist> = Vec::new();
    let mut i: usize = 0;
    while i < v.len()
        invariant
            i <= v@.len(),
            r@.len() == i,
            forall|k: int| 0 <= k < i ==> proto_to_playlist_spec(v@[k], #[trigger] r@[k]),
        decreases v@.len() - i,
    {
        r.push(proto_to_sync_playlist(&v[i]));
        i = i + 1;
    }
    r
}

fn favorites_to_proto(v: &Vec<SyncFavoritePlaylist>) -> (r: Vec<ProtoSyncFavoritePlaylist>)
    ensures
        r@.len() == v@.len(),
        forall|i: int| 0 <= i < v@.len() ==> favorite_to_proto_spec(v@[i], #[trigger] r@[i]),
{
    let mut r: Vec<ProtoSyncFavoritePlaylist> = Vec::new();
    let mut i: usize = 0;
    while i < v.len()
        invariant
            i <= v@.len(),
            r@.len() == i,
            forall|k: int| 0 <= k < i ==> favorite_to_proto_spec(v@[k], #[trigger] r@[k]),
        decreases v@.len() - i,
    {
        r.push(fav_playlist_to_proto(&v[i]));
        i = i + 1;
    }
    r
}

fn proto_to_favorites(v: &Vec<ProtoSyncFavoritePlaylist>) -> (r: Vec<SyncFavoritePlaylist>)
    ensures
        r@.len() == v@.len(),
        forall|i: int| 0 <= i < v@.len() ==> proto_to_favorite_spec(v@[i], #[trigger] r@[i]),
{
    let mut r: Vec<SyncFavoritePlaylist> = Vec::new();
    let mut i: usize = 0;
    while i < v.len()
        invariant
            i <= v@.len(),
            r@.len() == i,
            forall|k: int| 0 <= k < i ==> proto_to_favorite_spec(v@[k], #[trigger] r@[k]),
        decreases v@.len() - i,
    {
        r.push(proto_to_fav_playlist(&v[i]));
        i = i + 1;
    }
    r
}

fn plays_to_proto(v: &Vec<SyncRecentPlay>) -> (r: Vec<ProtoSyncRecentPlay>)
    ensures
        r@.len() == v@.len(),
        forall|i: int| 0 <= i < v@.len() ==> recent_to_proto_spec(v@[i], #[trigger] r@[i]),
{
    let mut r: Vec<ProtoSyncRecentPlay> = Vec::new();
    let mut i: usize = 0;
    while i < v.len()
        invariant
            i <= v@.len(),
            r@.len() == i,
            forall|k: int| 0 <= k < i ==> recent_to_proto_spec(v@[k], #[trigger] r@[k]),
        decreases v@.len() - i,
    {
        r.push(recent_play_to_proto(&v[i]));
        i = i + 1;
    }
    r
}

fn proto_to_plays(v: &Vec<ProtoSyncRecentPlay>) -> (r: Vec<SyncRecentPlay>)
    ensures
        r@.len() == v@.len(),
        forall|i: int| 0 <= i < v@.len() ==> proto_to_recent_spec(v@[i], #[trigger] r@[i]),
{
    let mut r: Vec<SyncRecentPlay> = Vec::new();
    let mut i: usize = 0;
    while i < v.len()
        invariant
            i <= v@.len(),
            r@.len() == i,
            forall|k: int| 0 <= k < i ==> proto_to_recent_spec(v@[k], #[trigger] r@[k]),
        decreases v@.len() - i,
    {
        r.push(proto_to_recent_play(&v[i]));
        i = i + 1;
    }
    r
}

fn log_to_proto(v: &Vec<SyncLogEntry>) -> (r: Vec<ProtoSyncLogEntry>)
    ensures
        r@.len() == v@.len(),
        forall|i: int| 0 <= i < v@.len() ==> log_to_proto_spec(v@[i], #[trigger] r@[i]),
{
    let mut r: Vec<ProtoSyncLogEntry> = Vec::new();
    let mut i: usize = 0;
    while i < v.len()
        invariant
            i <= v@.len(),
            r@.len() == i,
            forall|k: int| 0 <= k < i ==> log_to_proto_spec(v@[k], #[trigger] r@[k]),
        decreases v@.len() - i,
    {
        r.push(log_entry_to_proto(&v[i]));
        i = i + 1;
    }
    r
}

fn proto_to_log(v: &Vec<ProtoSyncLogEntry>) -> (r: Vec<SyncLogEntry>)
    ensures
        r@.len() == v@.len(),
        forall|i: int| 0 <= i < v@.len() ==> proto_to_log_spec(v@[i], #[trigger] r@[i]),
{
    let mut r: Vec<SyncLogEntry> = Vec::new();
    let mut i: usize = 0;
    while i < v.len()
        invariant
            i <= v@.len(),
            r@.len() == i,
            forall|k: int| 0 <= k < i ==> proto_to_log_spec(v@[k], #[trigger] r@[k]),
        decreases v@.len() - i,
    {
        r.push(proto_to_log_entry(&v[i]));
        i = i + 1;
    }
    r
}

fn deletions_to_proto(v: &Vec<SyncRecentPlayDeletion>) -> (r: Vec<ProtoSyncRecentPlayDeletion>)
    ensures
        r@.len() == v@.len(),
        forall|i: int| 0 <= i < v@.len() ==> deletion_to_proto_spec(v@[i], #[trigger] r@[i]),
{
    let mut r: Vec<ProtoSyncRecentPlayDeletion> = Vec::new();
    let mut i: usize = 0;
    while i < v.len()
        invariant
            i <= v@.len(),
            r@.len() == i,
            forall|k: int| 0 <= k < i ==> deletion_to_proto_spec(v@[k], #[trigger] r@[k]),
        decreases v@.len() - i,
    {
        r.push(deletion_to_proto(&v[i]));
        i = i + 1;
    }
    r
}

fn proto_to_deletions(v: &Vec<ProtoSyncRecentPlayDeletion>) -> (r: Vec<SyncRecentPlayDeletion>)
    ensures
        r@.len() == v@.len(),
        forall|i: int| 0 <= i < v@.len() ==> proto_to_deletion_spec(v@[i], #[trigger] r@[i]),
{
    let mut r: Vec<SyncRecentPlayDeletion> = Vec::new();
    let mut i: usize = 0;
    while i < v.len()
        invariant
            i <= v@.len(),
            r@.len() == i,
            forall|k: int| 0 <= k < i ==> proto_to_deletion_spec(v@[k], #[trigger] r@[k]),
        decreases v@.len() - i,
    {
        r.push(proto_to_deletion(&v[i]));
        i = i + 1;
    }
    r
}

/// `p` is the compact form of the data `d`.
pub open spec fn data_to_proto_spec(d: SyncData, p: ProtoSyncData) -> bool {
    &&& p.version@ == d.version@
    &&& p.device_id@ == d.device_id@
    &&& p.device_name@ == d.device_name@
    &&& p.last_modified == d.last_modified
    &&& p.playlists@.len() == d.playlists@.len()
    &&& forall|i: int| 0 <= i < d.playlists@.len() ==> playlist_to_proto_spec(d.playlists@[i], #[trigger] p.playlists@[i])
    &&& p.favorite_playlists@.len() == d.favorite_playlists@.len()
    &&& forall|i: int|
        0 <= i < d.favorite_playlists@.len() ==> favorite_to_proto_spec(
            d.favorite_playlists@[i],
            #[trigger] p.favorite_playlists@[i],
        )
    &&& p.recent_plays@.len() == d.recent_plays@.len()
    &&& forall|i: int| 0 <= i < d.recent_plays@.len() ==> recent_to_proto_spec(d.recent_plays@[i], #[trigger] p.recent_plays@[i])
    &&& p.sync_log@.len() == d.sync_log@.len()
    &&& forall|i: int| 0 <= i < d.sync_log@.len() ==> log_to_proto_spec(d.sync_log@[i], #[trigger] p.sync_log@[i])
    &&& p.recent_play_deletions@.len() == d.recent_play_deletions@.len()
    &&& forall|i: int|
        0 <= i < d.recent_play_deletions@.len() ==> deletion_to_proto_spec(
            d.recent_play_deletions@[i],
            #[trigger] p.recent_play_deletions@[i],
        )
}

/// `d` is the data that the compact form `p` holds; an empty version reads
/// as the current one.
pub open spec fn proto_to_data_spec(p: ProtoSyncData, d: SyncData) -> bool {
    &&& d.version@ == (if p.version@.len() == 0 { spec_default_version() } else { p.version@ })
    &&& d.device_id@ == p.device_id@
    &&& d.device_name@ == p.device_name@
    &&& d.last_modified == p.last_modified
    &&& d.playlists@.len() == p.playlists@.len()
    &&& forall|i: int| 0 <= i < p.playlists@.len() ==> proto_to_playlist_spec(p.playlists@[i], #[trigger] d.playlists@[i])
    &&& d.favorite_playlists@.len() == p.favorite_playlists@.len()
    &&& forall|i: int|
        0 <= i < p.favorite_playlists@.len() ==> proto_to_favorite_spec(
            p.favorite_playlists@[i],
            #[trigger] d.favorite_playlists@[i],
        )
    &&& d.recent_plays@.len() == p.recent_plays@.len()
    &&& forall|i: int| 0 <= i < p.recent_plays@.len() ==> proto_to_recent_spec(p.recent_plays@[i], #[trigger] d.recent_plays@[i])
    &&& d.sync_log@.len() == p.sync_log@.len()
    &&& forall|i: int| 0 <= i < p.sync_log@.len() ==> proto_to_log_spec(p.sync_log@[i], #[trigger] d.sync_log@[i])
    &&& d.recent_play_deletions@.len() == p.recent_play_deletions@.len()
    &&& forall|i: int|
        0 <= i < p.recent_play_deletions@.len() ==> proto_to_deletion_spec(
            p.recent_play_deletions@[i],
            #[trigger] d.recent_play_deletions@[i],
        )
}

/// The compact form of the synchronised data.
pub fn sync_data_to_proto(d: &SyncData) -> (p: ProtoSyncData)
    ensures
        data_to_proto_spec(*d, p),
{
    ProtoSyncData {
        version: d.version.clone(),
        device_id: d.device_id.clone(),
        device_name: d.device_name.clone(),
        last_modified: d.last_modified,
        playlists: playlists_to_proto(&d.playlists),
        favorite_playlists: favorites_to_proto(&d.favorite_playlists),
        recent_plays: plays_to_proto(&d.recent_plays),
        sync_log: log_to_proto(&d.sync_log),
        recent_play_deletions: deletions_to_proto(&d.recent_play_deletions),
    }
}

/// The synchronised data that a compact form holds.
pub fn proto_to_sync_data(p: &ProtoSyncData) -> (d: SyncData)
    ensures
        proto_to_data_spec(*p, d),
{
    SyncData {
        version: if p.version.as_str().is_empty() { default_version() } else { p.version.clone() },
        device_id: p.device_id.clone(),
        device_name: p.device_name.clone(),
        last_modified: p.last_modified,
        playlists: proto_to_playlists(&p.playlists),
        favorite_playlists: proto_to_favorites(&p.favorite_playlists),
        recent_plays: proto_to_plays(&p.recent_plays),
        sync_log: proto_to_log(&p.sync_log),
        recent_play_deletions: proto_to_deletions(&p.recent_play_deletions),
    }
}


// ===== round trips =====

/// Two songs hold the same values.
pub open spec fn same_song(a: SyncSong, b: SyncSong) -> bool {
    &&& a.id@ == b.id@
    &&& a.name@ == b.name@
    &&& a.artist@ == b.artist@
    &&& a.album@ == b.album@
    &&& a.album_id@ == b.album_id@
    &&& a.duration_ms == b.duration_ms
    &&& a.cover_url@ == b.cover_url@
    &&& a.media_uri@ == b.media_uri@
    &&& a.added_at == b.added_at
    &&& a.lyric == b.lyric
    &&& a.translated_lyric == b.translated_lyric
    &&& a.lyric_source == b.lyric_source
    &&& a.lyric_song_id == b.lyric_song_id
    &&& a.user_lyric_offset_ms == b.user_lyric_offset_ms
    &&& a.custom_cover_url == b.custom_cover_url
    &&& a.custom_name == b.custom_name
    &&& a.custom_artist == b.custom_artist
    &&& a.original_cover_url == b.original_cover_url
    &&& a.original_name == b.original_name
    &&& a.original_artist == b.original_artist
    &&& a.channel_id == b.channel_id
    &&& a.audio_id == b.audio_id
    &&& a.sub_audio_id == b.sub_audio_id
    &&& a.playlist_context_id == b.playlist_context_id
}

/// Two compact songs hold the same values.
pub open spec fn same_proto_song(a: ProtoSyncSong, b: ProtoSyncSong) -> bool {
    &&& a.id == b.id
    &&& a.name@ == b.name@
    &&& a.artist@ == b.artist@
    &&& a.album@ == b.album@
    &&& a.album_id == b.album_id
    &&& a.duration_ms == b.duration_ms
    &&& opt_view(a.cover_url) == opt_view(b.cover_url)
    &&& opt_view(a.media_uri) == opt_view(b.media_uri)
    &&& a.added_at == b.added_at
    &&& a.matched_lyric == b.matched_lyric
    &&& a.matched_translated_lyric == b.matched_translated_lyric
    &&& a.matched_lyric_source == b.matched_lyric_source
    &&& a.matched_song_id == b.matched_song_id
    &&& a.user_lyric_offset_ms == b.user_lyric_offset_ms
    &&& a.custom_cover_url == b.custom_cover_url
    &&& a.custom_name == b.custom_name
    &&& a.custom_artist == b.custom_artist
    &&& a.original_name == b.original_name
    &&& a.original_artist == b.original_artist
    &&& a.original_cover_url == b.original_cover_url
    &&& a.original_lyric == b.original_lyric
    &&& a.original_translated_lyric == b.original_translated_lyric
    &&& a.channel_id == b.channel_id
    &&& a.audio_id == b.audio_id
    &&& a.sub_audio_id == b.sub_audio_id
    &&& a.playlist_context_id == b.playlist_context_id
}

/// A song written to the compact form and read back is the same song, when
/// its ids are numbers in decimal form and its lyric offset is not 0.
pub proof fn law_song_survives_compact_form(s: SyncSong, p: ProtoSyncSong, t: SyncSong)
    requires
        song_to_proto_spec(s, p),
        proto_to_song_spec(p, t),
        s.id@ == int_decimal(id_number(s.id@) as int),
        s.album_id@ == int_decimal(id_number(s.album_id@) as int),
        s.user_lyric_offset_ms != Some(0i64),
    ensures
        same_song(t, s),
{
    assert(or_empty(opt_nonempty(s.cover_url@)) == s.cover_url@);
    assert(or_empty(opt_nonempty(s.media_uri@)) == s.media_uri@);
}

/// A compact song read and written again is the same, when it holds no
/// original lyrics and no empty cover or media URI.
pub proof fn law_compact_song_survives_reading(p: ProtoSyncSong, s: SyncSong, q: ProtoSyncSong)
    requires
        proto_to_song_spec(p, s),
        song_to_proto_spec(s, q),
        p.original_lyric is None,
        p.original_translated_lyric is None,
        opt_view(p.cover_url) != Some(Seq::<char>::empty()),
        opt_view(p.media_uri) != Some(Seq::<char>::empty()),
    ensures
        same_proto_song(q, p),
{
    law_i64_decimal_roundtrip(p.id);
    law_i64_decimal_roundtrip(p.album_id);
    lemma_nonempty_roundtrip(opt_view(p.cover_url));
    lemma_nonempty_roundtrip(opt_view(p.media_uri));
}

proof fn lemma_nonempty_roundtrip(o: Option<Seq<char>>)
    requires
        o != Some(Seq::<char>::empty()),
    ensures
        opt_nonempty(or_empty(o)) == o,
{
    match o {
        Some(c) => {
            if c.len() == 0 {
                assert(c =~= Seq::<char>::empty());
            }
        },
        None => {},
    }
}

/// A playlist written to the compact form and read back keeps its name,
/// times, deletion mark and number of songs; its id too when the id is a
/// number in decimal form; and each song whose ids are numbers in decimal
/// form and whose lyric offset is not 0 comes back the same.
pub proof fn law_playlist_survives_compact_form(s: SyncPlaylist, p: ProtoSyncPlaylist, t: SyncPlaylist)
    requires
        playlist_to_proto_spec(s, p),
        proto_to_playlist_spec(p, t),
    ensures
        t.name@ == s.name@,
        t.created_at == s.created_at,
        t.modified_at == s.modified_at,
        t.is_deleted == s.is_deleted,
        t.songs@.len() == s.songs@.len(),
        s.id@ == int_decimal(id_number(s.id@) as int) ==> t.id@ == s.id@,
        forall|i: int|
            0 <= i < s.songs@.len() && s.songs@[i].id@ == int_decimal(id_number(s.songs@[i].id@) as int)
                && s.songs@[i].album_id@ == int_decimal(id_number(s.songs@[i].album_id@) as int)
                && s.songs@[i].user_lyric_offset_ms != Some(0i64) ==> same_song(#[trigger] t.songs@[i], s.songs@[i]),
{
    assert forall|i: int|
        0 <= i < s.songs@.len() && s.songs@[i].id@ == int_decimal(id_number(s.songs@[i].id@) as int)
            && s.songs@[i].album_id@ == int_decimal(id_number(s.songs@[i].album_id@) as int)
            && s.songs@[i].user_lyric_offset_ms != Some(0i64) implies same_song(#[trigger] t.songs@[i], s.songs@[i]) by {
        law_song_survives_compact_form(s.songs@[i], p.songs@[i], t.songs@[i]);
    }
}

/// A favourite playlist written to the compact form and read back keeps its
/// name, cover, track count, source, times, deletion mark, sort order,
/// browse and playlist ids, subtitle and number of songs; its id too when
/// the id is a number in decimal form.
pub proof fn law_favorite_survives_compact_form(f: SyncFavoritePlaylist, p: ProtoSyncFavoritePlaylist, g: SyncFavoritePlaylist)
    requires
        favorite_to_proto_spec(f, p),
        proto_to_favorite_spec(p, g),
    ensures
        g.name@ == f.name@,
        g.cover_url@ == f.cover_url@,
        g.track_count == f.track_count,
        g.source@ == f.source@,
        g.added_time == f.added_time,
        g.modified_at == f.modified_at,
        g.is_deleted == f.is_deleted,
        g.sort_order == f.sort_order,
        g.browse_id == f.browse_id,
        g.playlist_id == f.playlist_id,
        g.subtitle == f.subtitle,
        g.songs@.len() == f.songs@.len(),
        f.id@ == int_decimal(id_number(f.id@) as int) ==> g.id@ == f.id@,
{
    assert(or_empty(opt_nonempty(f.cover_url@)) == f.cover_url@);
}

} // verus!
