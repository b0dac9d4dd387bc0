use vstd::prelude::*;
use crate::clock::now_millis;
use crate::decimal::{parse_i64, spec_parse_i64};
use crate::library::{lemma_max_positive_id_bounds, 
    LocalPlaylistView, Playlist, PlaylistStore, fixed_next_id, max_positive_id, max_positive_id_exec,
    playlist_views, unique_tracks, unique_tracks_of,
};
use crate::state::{TrackInfo, TrackSource, TrackView, track_views};
use crate::sync::merge::{favorite_views, has_data_changed, song_keys, spec_has_data_changed};
use crate::sync::models::{
    FavoriteView, PlaylistView, SnapshotEntry, SyncData, SyncFavoritePlaylist, SyncPlaylist, SyncResult, SyncSong,
    default_version, song_key, spec_default_version,
};
use crate::decimal::{i64_to_string, int_decimal};
use crate::text::{ends_with_str, find_char, from_char_range, opt_view, push_str, starts_with_str, str_eq, str_to_string, to_chars, trim, trim_str};

verus! {

/// `s` without `prefix`, when it starts with it.
pub open spec fn strip(s: Seq<char>, prefix: Seq<char>) -> Option<Seq<char>> {
    if prefix.len() <= s.len() && s.subrange(0, prefix.len() as int) == prefix {
        Some(s.subrange(prefix.len() as int, s.len() as int))
    } else {
        None
    }
}

/// `s.strip_prefix(prefix)`, owned.
pub fn strip_prefix_str(s: &str, prefix: &str) -> (r: Option<String>)
    ensures
        opt_view(r) == strip(s@, prefix@),
{
    if starts_with_str(s, prefix) {
        let v = to_chars(s);
        let p = to_chars(prefix);
        Some(from_char_range(v.as_slice(), p.len(), v.len()))
    } else {
        None
    }
}

/// The id of a song in synchronised form and its media URI, from the id of
/// a track: the platform prefix goes; a YouTube video gets its
/// `ytmusic://video/` URI.
pub open spec fn song_id_and_uri(id: Seq<char>) -> (Seq<char>, Seq<char>) {
    match strip(id, "netease:"@) {
        Some(n) => (n, Seq::empty()),
        None => match strip(id, "youtube:"@) {
            Some(v) => (v, "ytmusic://video/"@ + v),
            None => match strip(id, "bilibili:"@) {
                Some(b) => (b, Seq::empty()),
                None => (id, Seq::empty()),
            },
        },
    }
}

/// `s` is the track `t` in synchronised form, whatever its time of addition.
pub open spec fn song_from_track(t: TrackView, s: SyncSong) -> bool {
    &&& s.id@ == song_id_and_uri(t.id).0
    &&& s.name@ == t.title
    &&& s.artist@ == t.artist
    &&& s.album@ == t.album
    &&& s.album_id@ == Seq::<char>::empty()
    &&& s.duration_ms == t.duration_ms as i64
    &&& s.cover_url@ == (match t.cover_url {
        Some(c) => c,
        None => Seq::<char>::empty(),
    })
    &&& s.media_uri@ == song_id_and_uri(t.id).1
    &&& s.lyric is None
    &&& s.translated_lyric is None
    &&& s.lyric_source is None
    &&& s.lyric_song_id is None
    &&& s.user_lyric_offset_ms is None
    &&& s.custom_cover_url is None
    &&& s.custom_name is None
    &&& s.custom_artist is None
    &&& s.original_cover_url is None
    &&& s.original_name is None
    &&& s.original_artist is None
    &&& s.channel_id is None
    &&& s.audio_id is None
    &&& s.sub_audio_id is None
    &&& s.playlist_context_id is None
}

fn id_and_uri(id: &str) -> (r: (String, String))
    ensures
        r.0@ == song_id_and_uri(id@).0,
        r.1@ == song_id_and_uri(id@).1,
{
    match strip_prefix_str(id, "netease:") {
        Some(n) => (n, String::new()),
        None => match strip_prefix_str(id, "youtube:") {
            Some(v) => {
                let mut uri = str_to_string("ytmusic://video/");
                push_str(&mut uri, v.as_str());
                (v, uri)
            },
            None => match strip_prefix_str(id, "bilibili:") {
                Some(b) => (b, String::new()),
                None => (str_to_string(id), String::new()),
            },
        },
    }
}

/// The track in synchronised form, added at `now`.
pub fn track_to_sync_song_at(track: &TrackInfo, now: i64) -> (r: SyncSong)
    ensures
        song_from_track(track@, r),
        r.added_at == now,
{
    let (pure_id, media_uri) = id_and_uri(track.id.as_str());
    SyncSong {
        id: pure_id,
        name: track.title.clone(),
        artist: track.artist.clone(),
        album: track.album.clone(),
        album_id: String::new(),
        duration_ms: track.duration_ms as i64,
        cover_url: match &track.cover_url {
            Some(c) => c.clone(),
            None => String::new(),
        },
        media_uri,
        added_at: now,
        lyric: None,
        translated_lyric: None,
        lyric_source: None,
        lyric_song_id: None,
        user_lyric_offset_ms: None,
        custom_cover_url: None,
        custom_name: None,
        custom_artist: None,
        original_cover_url: None,
        original_name: None,
        original_artist: None,
        channel_id: None,
        audio_id: None,
        sub_audio_id: None,
        playlist_context_id: None,
    }
}

/// The track in synchronised form, added now.
fn track_to_sync_song(track: &TrackInfo) -> (r: SyncSong)
    ensures
        song_from_track(track@, r),
{
    track_to_sync_song_at(track, now_millis())
}

/// The track in synchronised form, added now.
pub fn track_to_sync_song_pub(track: &TrackInfo) -> (r: SyncSong)
    ensures
        song_from_track(track@, r),
{
    track_to_sync_song(track)
}

/// `s` up to its first `?`.
pub open spec fn before_question(s: Seq<char>) -> Seq<char>
    decreases s.len(),
{
    if s.len() == 0 {
        s
    } else if s[0] == '?' {
        Seq::empty()
    } else {
        seq![s[0]] + before_question(s.drop_first())
    }
}

proof fn lemma_before_question(s: Seq<char>, k: int)
    requires
        0 <= k <= s.len(),
        forall|j: int| 0 <= j < k ==> s[j] != '?',
        k == s.len() || s[k] == '?',
    ensures
        before_question(s) == s.take(k),
    decreases s.len(),
{
    if s.len() > 0 && k > 0 {
        lemma_before_question(s.drop_first(), k - 1);
        assert(seq![s[0]] + s.drop_first().take(k - 1) =~= s.take(k));
    } else if s.len() > 0 {
        assert(s.take(0) =~= Seq::<char>::empty());
    } else {
        assert(s.take(0) =~= s);
    }
}

/// The video id of a YouTube song: its media URI after `ytmusic://video/`
/// (its id when the URI has another form), up to the first `?`.
pub open spec fn youtube_video_id(s: SyncSong) -> Seq<char> {
    let base = match strip(s.media_uri@, "ytmusic://video/"@) {
        Some(v) => v,
        None => s.id@,
    };
    before_question(base)
}

/// The track that a song in synchronised form stands for: the platform is
/// told from the media URI (YouTube), the album (Bilibili) or the id
/// (NetEase); custom names win over the original ones.
pub open spec fn track_of_song(s: SyncSong) -> TrackView {
    let is_youtube = strip(s.media_uri@, "ytmusic://"@) is Some;
    let is_bilibili = strip(s.album@, "Bilibili"@) is Some;
    let id = if is_youtube {
        "youtube:"@ + youtube_video_id(s)
    } else if is_bilibili {
        "bilibili:"@ + s.id@
    } else if s.id@.len() > 0 {
        "netease:"@ + s.id@
    } else {
        s.id@
    };
    let source = if is_youtube {
        TrackSource::Youtube
    } else if is_bilibili {
        TrackSource::Bilibili
    } else if s.id@.len() > 0 {
        TrackSource::Netease
    } else {
        TrackSource::Local
    };
    TrackView {
        id: id,
        title: match s.custom_name {
            Some(n) => n@,
            None => s.name@,
        },
        artist: match s.custom_artist {
            Some(a) => a@,
            None => s.artist@,
        },
        album: s.album@,
        duration_ms: (if s.duration_ms < 0 { 0 } else { s.duration_ms }) as u64,
        source: source,
        url: Seq::empty(),
        cover_url: if s.cover_url@.len() == 0 { None } else { Some(s.cover_url@) },
    }
}

fn youtube_video_id_exec(song: &SyncSong) -> (r: String)
    ensures
        r@ == youtube_video_id(*song),
{
    let base = match strip_prefix_str(song.media_uri.as_str(), "ytmusic://video/") {
        Some(v) => v,
        None => song.id.clone(),
    };
    let v = to_chars(base.as_str());
    let end = match find_char(v.as_slice(), '?') {
        Some(k) => k,
        None => v.len(),
    };
    proof {
        lemma_before_question(v@, end as int);
    }
    from_char_range(v.as_slice(), 0, end)
}

fn prefixed(prefix: &str, s: &str) -> (r: String)
    ensures
        r@ == prefix@ + s@,
{
    let mut r = str_to_string(prefix);
    push_str(&mut r, s);
    r
}

/// The track that a song in synchronised form stands for.
pub fn sync_song_to_track(song: &SyncSong) -> (r: TrackInfo)
    ensures
        r@ == track_of_song(*song),
{
    let is_youtube = starts_with_str(song.media_uri.as_str(), "ytmusic://");
    let is_bilibili = starts_with_str(song.album.as_str(), "Bilibili");
    let (full_id, source) = if is_youtube {
        let vid = youtube_video_id_exec(song);
        (prefixed("youtube:", vid.as_str()), TrackSource::Youtube)
    } else if is_bilibili {
        (prefixed("bilibili:", song.id.as_str()), TrackSource::Bilibili)
    } else if !song.id.as_str().is_empty() {
        (prefixed("netease:", song.id.as_str()), TrackSource::Netease)
    } else {
        (song.id.clone(), TrackSource::Local)
    };
    let title = match &song.custom_name {
        Some(n) => n.clone(),
        None => song.name.clone(),
    };
    let artist = match &song.custom_artist {
        Some(a) => a.clone(),
        None => song.artist.clone(),
    };
    let duration: i64 = if song.duration_ms < 0 { 0 } else { song.duration_ms };
    let cover = if song.cover_url.as_str().is_empty() { None } else { Some(song.cover_url.clone()) };
    TrackInfo {
        id: full_id,
        title,
        artist,
        album: song.album.clone(),
        duration_ms: duration as u64,
        source,
        url: String::new(),
        cover_url: cover,
    }
}


proof fn lemma_strip_prefixed(p: Seq<char>, x: Seq<char>)
    ensures
        strip(p + x, p) == Some(x),
{
    assert((p + x).subrange(0, p.len() as int) =~= p);
    assert((p + x).subrange(p.len() as int, (p + x).len() as int) =~= x);
}

/// A NetEase or YouTube track comes back from its synchronised form as it
/// was (its stream URL aside, which is found when it is played): the same
/// id, title, artist, album, duration and cover, and the platform that its
/// id names.
pub proof fn law_track_song_track_roundtrip(t: TrackView, s: SyncSong)
    requires
        song_from_track(t, s),
        (exists|x: Seq<char>| x.len() > 0 && t.id == "netease:"@ + x && strip(t.album, "Bilibili"@) is None)
            || (exists|v: Seq<char>| t.id == "youtube:"@ + v && forall|i: int| 0 <= i < v.len() ==> v[i] != '?'),
        t.cover_url != Some(Seq::<char>::empty()),
        t.duration_ms <= i64::MAX,
    ensures
        track_of_song(s).id == t.id,
        track_of_song(s).title == t.title,
        track_of_song(s).artist == t.artist,
        track_of_song(s).album == t.album,
        track_of_song(s).duration_ms == t.duration_ms,
        track_of_song(s).cover_url == t.cover_url,
        track_of_song(s).url == Seq::<char>::empty(),
        strip(t.id, "netease:"@) is Some ==> track_of_song(s).source == TrackSource::Netease,
        strip(t.id, "youtube:"@) is Some ==> track_of_song(s).source == TrackSource::Youtube,
{
    reveal_strlit("netease:");
    reveal_strlit("youtube:");
    reveal_strlit("ytmusic://");
    reveal_strlit("ytmusic://video/");
    reveal_strlit("Bilibili");
    let r = track_of_song(s);
    match t.cover_url {
        Some(c) => {
            if c.len() == 0 {
                assert(c =~= Seq::<char>::empty());
            }
        },
        None => {},
    }
    if exists|x: Seq<char>| x.len() > 0 && t.id == "netease:"@ + x && strip(t.album, "Bilibili"@) is None {
        let x = choose|x: Seq<char>| x.len() > 0 && t.id == "netease:"@ + x && strip(t.album, "Bilibili"@) is None;
        lemma_strip_prefixed("netease:"@, x);
        assert(s.id@ == x);
        assert(s.media_uri@ == Seq::<char>::empty());
        assert(strip(s.media_uri@, "ytmusic://"@) is None);
        assert(r.id == "netease:"@ + x);
        assert(strip(t.id, "youtube:"@) is None) by {
            assert(t.id[0] == 'n');
            if strip(t.id, "youtube:"@) is Some {
                assert(t.id.subrange(0, 8)[0] == 'n');
            }
        }
    } else {
        let v = choose|v: Seq<char>| t.id == "youtube:"@ + v && forall|i: int| 0 <= i < v.len() ==> v[i] != '?';
        lemma_strip_prefixed("youtube:"@, v);
        assert(strip(t.id, "netease:"@) is None) by {
            assert(t.id[0] == 'y');
            if strip(t.id, "netease:"@) is Some {
                assert(t.id.subrange(0, 8)[0] == 'y');
            }
        }
        assert(s.id@ == v);
        assert(s.media_uri@ == "ytmusic://video/"@ + v);
        assert("ytmusic://video/"@ + v =~= "ytmusic://"@ + ("video/"@ + v)) by {
            reveal_strlit("video/");
        }
        lemma_strip_prefixed("ytmusic://"@, "video/"@ + v);
        lemma_strip_prefixed("ytmusic://video/"@, v);
        lemma_before_question(v, v.len() as int);
        assert(v.take(v.len() as int) =~= v);
        assert(youtube_video_id(s) == v);
        assert(r.id == "youtube:"@ + v);
    }
}

// ===== writing merged playlists back to the local store =====

/// Names under which the favourites playlist is known.
pub open spec fn is_favorites_name_spec(n: Seq<char>) -> bool {
    n == "我喜欢的音乐"@ || n == "我喜歡的音樂"@ || n == "お気に入りの曲"@ || n == "Liked Songs"@
        || n == "My Favorite Music"@
}

/// Names under which the local files playlist is known.
pub open spec fn is_local_name_spec(n: Seq<char>) -> bool {
    n == "本地音乐"@ || n == "本機音樂"@ || n == "ローカル音楽"@ || n == "Local Music"@
}

/// Whether `name` is a name of the favourites playlist.
pub fn is_favorites_name(name: &str) -> (r: bool)
    ensures
        r == is_favorites_name_spec(name@),
{
    str_eq(name, "我喜欢的音乐") || str_eq(name, "我喜歡的音樂") || str_eq(name, "お気に入りの曲") || str_eq(
        name,
        "Liked Songs",
    ) || str_eq(name, "My Favorite Music")
}

/// Whether `name` is a name of the local files playlist.
pub fn is_local_name(name: &str) -> (r: bool)
    ensures
        r == is_local_name_spec(name@),
{
    str_eq(name, "本地音乐") || str_eq(name, "本機音樂") || str_eq(name, "ローカル音楽") || str_eq(name, "Local Music")
}

/// The local id that a synchronised playlist's id and name point to: a
/// system playlist by id or by name, a positive id as it is, 0 for one that
/// needs an id.
pub open spec fn system_id(id: Seq<char>, name: Seq<char>) -> i64 {
    match spec_parse_i64(id) {
        Some(v) => if v == -1001i64 || is_favorites_name_spec(name) {
            -1001i64
        } else if v == -1002i64 || is_local_name_spec(name) {
            -1002i64
        } else if v > 0 {
            v
        } else {
            0i64
        },
        None => if is_favorites_name_spec(name) {
            -1001i64
        } else if is_local_name_spec(name) {
            -1002i64
        } else {
            0i64
        },
    }
}

/// The local id for a synchronised playlist id and name: a system playlist,
/// a positive id, or 0 when a new id is needed.
pub fn resolve_system_id(sp_id: &str, sp_name: &str) -> (r: i64)
    ensures
        r == system_id(sp_id@, sp_name@),
{
    match parse_i64(sp_id) {
        Some(id) => {
            if id == -1001 || is_favorites_name(sp_name) {
                return -1001;
            }
            if id == -1002 || is_local_name(sp_name) {
                return -1002;
            }
            if id > 0 {
                return id;
            }
            0
        },
        None => {
            if is_favorites_name(sp_name) {
                return -1001;
            }
            if is_local_name(sp_name) {
                return -1002;
            }
            0
        },
    }
}

/// The views of a list of synchronised playlists.
pub open spec fn sync_playlist_views(ps: Seq<SyncPlaylist>) -> Seq<PlaylistView> {
    ps.map_values(|p: SyncPlaylist| p@)
}

/// The tracks that a list of songs stands for.
pub open spec fn tracks_of_songs(songs: Seq<SyncSong>) -> Seq<TrackView> {
    Seq::new(songs.len(), |i: int| track_of_song(songs[i]))
}

/// The first position of a playlist named `name`.
pub open spec fn position_of_name(ps: Seq<LocalPlaylistView>, name: Seq<char>) -> Option<int>
    decreases ps.len(),
{
    if ps.len() == 0 {
        None
    } else {
        match position_of_name(ps.drop_last(), name) {
            Some(k) => Some(k),
            None => if ps.last().name == name { Some(ps.len() - 1) } else { None },
        }
    }
}

/// Some playlist of `ps` has the id `id`.
pub open spec fn has_local_id(ps: Seq<LocalPlaylistView>, id: int) -> bool {
    exists|i: int| 0 <= i < ps.len() && (#[trigger] ps[i]).id == id
}

/// What writing back has built after some of the merged playlists: the new
/// playlists, the largest id handed out so far, and the trimmed names seen.
pub struct WriteBack {
    pub playlists: Seq<LocalPlaylistView>,
    pub max_id: int,
    pub seen: Seq<Seq<char>>,
}

/// The local id that a synchronised playlist gets before clashes are
/// resolved, and the largest id handed out after it.
pub open spec fn chosen_id(sp: PlaylistView, store: Seq<LocalPlaylistView>, max_id: int) -> (int, int) {
    let sys = system_id(sp.id, sp.name);
    if sys != 0 {
        (sys as int, max_id)
    } else if (match spec_parse_i64(sp.id) {
        Some(v) => v > 0,
        None => false,
    }) {
        (spec_parse_i64(sp.id).unwrap() as int, max_id)
    } else {
        match position_of_name(store, sp.name) {
            Some(k) => (store[k].id as int, max_id),
            None => (max_id + 1, max_id + 1),
        }
    }
}

/// The id that replaces one already taken: one above both the largest id
/// handed out and every positive id taken.
pub open spec fn conflict_id(taken: Seq<LocalPlaylistView>, max_id: int) -> int {
    let top = max_positive_id(taken) as int;
    (if top > max_id { top } else { max_id }) + 1
}

/// One merged playlist written back: deleted ones and repeated trimmed
/// names are skipped; an id that is taken already gets a fresh one above
/// every id taken, which also becomes the largest id handed out; tracks
/// without an id or with a repeated id are dropped.
pub open spec fn write_back_one(st: WriteBack, sp: PlaylistView, store: Seq<LocalPlaylistView>) -> WriteBack {
    if sp.is_deleted || st.seen.contains(trim(sp.name)) {
        st
    } else {
        let (id0, max0) = chosen_id(sp, store, st.max_id);
        let (id1, max1) = if has_local_id(st.playlists, id0) {
            (conflict_id(st.playlists, max0), conflict_id(st.playlists, max0))
        } else {
            (id0, max0)
        };
        WriteBack {
            playlists: st.playlists.push(
                LocalPlaylistView {
                    id: id1 as i64,
                    name: sp.name,
                    tracks: unique_tracks_of(tracks_of_songs(sp.songs)),
                    modified_at: (if sp.modified_at < 0 { 0 } else { sp.modified_at }) as u64,
                },
            ),
            max_id: max1,
            seen: st.seen.push(trim(sp.name)),
        }
    }
}

/// The first `n` merged playlists written back over the store `store`.
pub open spec fn write_back_upto(merged: Seq<PlaylistView>, store: Seq<LocalPlaylistView>, n: nat) -> WriteBack
    decreases n,
{
    if n == 0 {
        WriteBack { playlists: Seq::empty(), max_id: max_positive_id(store) as int, seen: Seq::empty() }
    } else {
        write_back_one(write_back_upto(merged, store, (n - 1) as nat), merged[n - 1], store)
    }
}

/// All merged playlists written back over the store `store`.
pub open spec fn written_back(merged: Seq<PlaylistView>, store: Seq<LocalPlaylistView>) -> WriteBack {
    write_back_upto(merged, store, merged.len())
}

/// Where a playlist goes in the local list: favourites first, local files
/// last, the rest between.
pub open spec fn rank(p: LocalPlaylistView) -> int {
    if p.id == -1001 {
        -1
    } else if p.id == -1002 {
        1
    } else {
        0
    }
}

/// The playlists of `ps` with rank `k`, in order.
pub open spec fn with_rank(ps: Seq<LocalPlaylistView>, k: int) -> Seq<LocalPlaylistView>
    decreases ps.len(),
{
    if ps.len() == 0 {
        ps
    } else {
        let rest = with_rank(ps.drop_last(), k);
        if rank(ps.last()) == k { rest.push(ps.last()) } else { rest }
    }
}

/// `ps` in the order of a stable sort by rank.
pub open spec fn ranked(ps: Seq<LocalPlaylistView>) -> Seq<LocalPlaylistView> {
    with_rank(ps, -1) + with_rank(ps, 0) + with_rank(ps, 1)
}

proof fn lemma_write_back_max_grows(merged: Seq<PlaylistView>, store: Seq<LocalPlaylistView>, i: nat, n: nat)
    requires
        i <= n,
    ensures
        write_back_upto(merged, store, i).max_id <= write_back_upto(merged, store, n).max_id,
    decreases n,
{
    if i < n {
        lemma_write_back_max_grows(merged, store, i, (n - 1) as nat);
    }
}

proof fn lemma_position_of_name(ps: Seq<LocalPlaylistView>, name: Seq<char>)
    ensures
        match position_of_name(ps, name) {
            Some(k) => 0 <= k < ps.len() && ps[k].name == name && forall|j: int| 0 <= j < k ==> ps[j].name != name,
            None => forall|j: int| 0 <= j < ps.len() ==> ps[j].name != name,
        },
    decreases ps.len(),
{
    if ps.len() > 0 {
        lemma_position_of_name(ps.drop_last(), name);
        assert forall|j: int| 0 <= j < ps.len() - 1 implies ps.drop_last()[j] == ps[j] by {}
    }
}

fn find_name(ps: &Vec<Playlist>, name: &str) -> (r: Option<usize>)
    ensures
        match r {
            Some(k) => k < ps@.len() && position_of_name(playlist_views(ps@), name@) == Some(k as int),
            None => position_of_name(playlist_views(ps@), name@) is None,
        },
{
    let ghost v = playlist_views(ps@);
    proof {
        lemma_position_of_name(v, name@);
    }
    let mut i: usize = 0;
    while i < ps.len()
        invariant
            i <= ps@.len(),
            v == playlist_views(ps@),
            forall|j: int| 0 <= j < i ==> (#[trigger] ps@[j]).name@ != name@,
        decreases ps@.len() - i,
    {
        if str_eq(ps[i].name.as_str(), name) {
            proof {
                lemma_position_of_name(v, name@);
                match position_of_name(v, name@) {
                    Some(k) => {
                        assert(v[i as int].name == name@);
                        assert(ps@[k].name@ == name@);
                    },
                    None => {
                        assert(v[i as int].name == name@);
                    },
                }
            }
            return Some(i);
        }
        i = i + 1;
    }
    proof {
        match position_of_name(v, name@) {
            Some(k) => {
                assert(ps@[k].name@ == name@);
            },
            None => {},
        }
    }
    None
}

fn has_local_id_exec(ps: &Vec<Playlist>, id: i64) -> (r: bool)
    ensures
        r == has_local_id(playlist_views(ps@), id as int),
{
    let mut i: usize = 0;
    while i < ps.len()
        invariant
            i <= ps@.len(),
            forall|j: int| 0 <= j < i ==> (#[trigger] ps@[j]).id != id,
        decreases ps@.len() - i,
    {
        if ps[i].id == id {
            assert(playlist_views(ps@)[i as int].id == id);
            return true;
        }
        i = i + 1;
    }
    false
}

fn seen_contains(seen: &Vec<String>, name: &String) -> (r: bool)
    ensures
        r == seen@.map_values(|s: String| s@).contains(name@),
{
    let ghost sv = seen@.map_values(|s: String| s@);
    let mut i: usize = 0;
    while i < seen.len()
        invariant
            i <= seen@.len(),
            sv == seen@.map_values(|s: String| s@),
            forall|j: int| 0 <= j < i ==> (#[trigger] seen@[j])@ != name@,
        decreases seen@.len() - i,
    {
        if str_eq(seen[i].as_str(), name.as_str()) {
            assert(sv[i as int] == name@);
            return true;
        }
        i = i + 1;
    }
    proof {
        if sv.contains(name@) {
            let k = choose|k: int| 0 <= k < sv.len() && sv[k] == name@;
            assert(seen@[k]@ == name@);
        }
    }
    false
}

fn songs_to_tracks(songs: &Vec<SyncSong>) -> (r: Vec<TrackInfo>)
    ensures
        track_views(r@) == tracks_of_songs(songs@),
{
    let mut r: Vec<TrackInfo> = Vec::new();
    let mut i: usize = 0;
    while i < songs.len()
        invariant
            i <= songs@.len(),
            track_views(r@) == tracks_of_songs(songs@).take(i as int),
        decreases songs@.len() - i,
    {
        let t = sync_song_to_track(&songs[i]);
        let ghost prev = r@;
        r.push(t);
        assert(track_views(r@) =~= track_views(prev).push(t@));
        i = i + 1;
        assert(track_views(r@) =~= tracks_of_songs(songs@).take(i as int));
    }
    assert(tracks_of_songs(songs@).take(songs@.len() as int) =~= tracks_of_songs(songs@));
    r
}

fn rank_exec(p: &Playlist) -> (r: i8)
    ensures
        r as int == rank(p@),
{
    if p.id == -1001 {
        -1
    } else if p.id == -1002 {
        1
    } else {
        0
    }
}

fn push_with_rank(ps: &Vec<Playlist>, k: i8, out: &mut Vec<Playlist>)
    ensures
        playlist_views(final(out)@) == playlist_views(old(out)@) + with_rank(playlist_views(ps@), k as int),
{
    let ghost all = playlist_views(ps@);
    let ghost start = playlist_views(out@);
    let mut i: usize = 0;
    assert(with_rank(all.take(0), k as int) =~= Seq::<LocalPlaylistView>::empty());
    while i < ps.len()
        invariant
            i <= ps@.len(),
            all == playlist_views(ps@),
            start == playlist_views(old(out)@),
            playlist_views(out@) == start + with_rank(all.take(i as int), k as int),
        decreases ps@.len() - i,
    {
        assert(all.take(i + 1).drop_last() =~= all.take(i as int));
        if rank_exec(&ps[i]) == k {
            let p = ps[i].clone();
            let ghost prev = out@;
            out.push(p);
            assert(playlist_views(out@) =~= playlist_views(prev).push(p@));
        }
        i = i + 1;
    }
    assert(all.take(all.len() as int) =~= all);
}

/// No two playlists of `ps` have the same name once trimmed.
pub open spec fn names_distinct(ps: Seq<LocalPlaylistView>) -> bool {
    forall|a: int, b: int| 0 <= a < b < ps.len() ==> trim(#[trigger] ps[a].name) != trim(#[trigger] ps[b].name)
}

proof fn lemma_write_back_names(merged: Seq<PlaylistView>, store: Seq<LocalPlaylistView>, n: nat)
    requires
        n <= merged.len(),
    ensures
        write_back_upto(merged, store, n).playlists.len() == write_back_upto(merged, store, n).seen.len(),
        forall|k: int|
            0 <= k < write_back_upto(merged, store, n).seen.len() ==> write_back_upto(merged, store, n).seen[k] == trim(
                #[trigger] write_back_upto(merged, store, n).playlists[k].name,
            ),
        names_distinct(write_back_upto(merged, store, n).playlists),
    decreases n,
{
    if n > 0 {
        lemma_write_back_names(merged, store, (n - 1) as nat);
        let st = write_back_upto(merged, store, (n - 1) as nat);
        let sp = merged[n - 1];
        let nx = write_back_upto(merged, store, n);
        if !(sp.is_deleted || st.seen.contains(trim(sp.name))) {
            assert forall|k: int| 0 <= k < nx.seen.len() implies nx.seen[k] == trim(#[trigger] nx.playlists[k].name) by {
                if k < st.seen.len() {
                    assert(nx.seen[k] == st.seen[k]);
                    assert(nx.playlists[k] == st.playlists[k]);
                }
            }
            assert forall|a: int, b: int| 0 <= a < b < nx.playlists.len() implies trim(#[trigger] nx.playlists[a].name)
                != trim(#[trigger] nx.playlists[b].name) by {
                assert(nx.playlists[a] == st.playlists[a]);
                if b < st.playlists.len() {
                    assert(nx.playlists[b] == st.playlists[b]);
                } else {
                    assert(st.seen[a] == trim(st.playlists[a].name));
                    assert(!st.seen.contains(trim(sp.name)));
                }
            }
        }
    }
}

/// `x` is a playlist of `ps` of rank `k`.
spec fn member_of_rank(ps: Seq<LocalPlaylistView>, x: LocalPlaylistView, k: int) -> bool {
    exists|a: int| 0 <= a < ps.len() && ps[a] == x && rank(x) == k
}

proof fn lemma_with_rank_members(ps: Seq<LocalPlaylistView>, k: int)
    ensures
        forall|i: int| 0 <= i < with_rank(ps, k).len() ==> #[trigger] member_of_rank(ps, with_rank(ps, k)[i], k),
    decreases ps.len(),
{
    if ps.len() > 0 {
        let q = ps.drop_last();
        lemma_with_rank_members(q, k);
        let w = with_rank(ps, k);
        let wq = with_rank(q, k);
        assert forall|i: int| 0 <= i < w.len() implies #[trigger] member_of_rank(ps, w[i], k) by {
            if i < wq.len() {
                assert(w[i] == wq[i]);
                assert(member_of_rank(q, wq[i], k));
                let a = choose|a: int| 0 <= a < q.len() && q[a] == wq[i] && rank(wq[i]) == k;
                assert(ps[a] == q[a]);
            } else {
                let a = ps.len() - 1;
                assert(rank(ps.last()) == k);
                assert(w[i] == ps[a]);
            }
        }
    }
}

proof fn lemma_with_rank_names(ps: Seq<LocalPlaylistView>, k: int)
    requires
        names_distinct(ps),
    ensures
        names_distinct(with_rank(ps, k)),
    decreases ps.len(),
{
    if ps.len() > 0 {
        let q = ps.drop_last();
        assert(names_distinct(q)) by {
            assert forall|a: int, b: int| 0 <= a < b < q.len() implies trim(#[trigger] q[a].name) != trim(#[trigger] q[b].name) by {
                assert(q[a] == ps[a]);
                assert(q[b] == ps[b]);
            }
        }
        lemma_with_rank_names(q, k);
        lemma_with_rank_members(q, k);
        let w = with_rank(ps, k);
        let wq = with_rank(q, k);
        if rank(ps.last()) == k {
            assert forall|a: int, b: int| 0 <= a < b < w.len() implies trim(#[trigger] w[a].name) != trim(#[trigger] w[b].name) by {
                assert(w[a] == wq[a]);
                if b < wq.len() {
                    assert(w[b] == wq[b]);
                } else {
                    assert(member_of_rank(q, wq[a], k));
                    let x = choose|x: int| 0 <= x < q.len() && q[x] == wq[a] && rank(wq[a]) == k;
                    assert(ps[x] == q[x]);
                    assert(w[b] == ps[ps.len() - 1]);
                }
            }
        }
    }
}

/// Writing the merged playlists back keeps one playlist per name: no two
/// playlists of the local store that it leaves have the same name once
/// trimmed.
pub proof fn law_written_back_names_distinct(merged: Seq<PlaylistView>, store: Seq<LocalPlaylistView>)
    ensures
        names_distinct(ranked(written_back(merged, store).playlists)),
{
    let ps = written_back(merged, store).playlists;
    lemma_write_back_names(merged, store, merged.len());
    lemma_with_rank_names(ps, -1);
    lemma_with_rank_names(ps, 0);
    lemma_with_rank_names(ps, 1);
    lemma_with_rank_members(ps, -1);
    lemma_with_rank_members(ps, 0);
    lemma_with_rank_members(ps, 1);
    let a0 = with_rank(ps, -1);
    let b0 = with_rank(ps, 0);
    let c0 = with_rank(ps, 1);
    let r = ranked(ps);
    assert forall|i: int, j: int| 0 <= i < j < r.len() implies trim(#[trigger] r[i].name) != trim(#[trigger] r[j].name) by {
        let la = a0.len() as int;
        let lb = b0.len() as int;
        if j < la {
            assert(r[i] == a0[i] && r[j] == a0[j]);
        } else if i >= la && j < la + lb {
            assert(r[i] == b0[i - la] && r[j] == b0[j - la]);
        } else if i >= la + lb {
            assert(r[i] == c0[i - la - lb] && r[j] == c0[j - la - lb]);
        } else {
            let (x, kx) = if i < la { (a0[i], -1int) } else { (b0[i - la], 0int) };
            let (y, ky) = if j < la + lb { (b0[j - la], 0int) } else { (c0[j - la - lb], 1int) };
            assert(r[i] == x);
            assert(r[j] == y);
            if i < la {
                assert(member_of_rank(ps, a0[i], -1));
            } else {
                assert(member_of_rank(ps, b0[i - la], 0));
            }
            if j < la + lb {
                assert(member_of_rank(ps, b0[j - la], 0));
            } else {
                assert(member_of_rank(ps, c0[j - la - lb], 1));
            }
            assert(member_of_rank(ps, x, kx));
            assert(member_of_rank(ps, y, ky));
            let a = choose|a: int| 0 <= a < ps.len() && ps[a] == x && rank(x) == kx;
            let b = choose|b: int| 0 <= b < ps.len() && ps[b] == y && rank(y) == ky;
            assert(a != b);
            if a < b {
                assert(trim(ps[a].name) != trim(ps[b].name));
            } else {
                assert(trim(ps[b].name) != trim(ps[a].name));
            }
        }
    }
}

/// No two playlists of `ps` have the same id.
pub open spec fn ids_distinct(ps: Seq<LocalPlaylistView>) -> bool {
    forall|a: int, b: int| 0 <= a < b < ps.len() ==> (#[trigger] ps[a]).id != (#[trigger] ps[b]).id
}

proof fn lemma_write_back_ids(merged: Seq<PlaylistView>, store: Seq<LocalPlaylistView>, n: nat)
    requires
        n <= merged.len(),
        write_back_upto(merged, store, n).max_id <= i64::MAX,
    ensures
        write_back_upto(merged, store, n).max_id >= 0,
        ids_distinct(write_back_upto(merged, store, n).playlists),
    decreases n,
{
    if n == 0 {
        lemma_max_positive_id_bounds(store);
    } else {
        lemma_write_back_max_grows(merged, store, (n - 1) as nat, n);
        lemma_write_back_ids(merged, store, (n - 1) as nat);
        let st = write_back_upto(merged, store, (n - 1) as nat);
        let sp = merged[n - 1];
        let nx = write_back_upto(merged, store, n);
        if !(sp.is_deleted || st.seen.contains(trim(sp.name))) {
            let (id0, max0) = chosen_id(sp, store, st.max_id);
            assert(max0 >= st.max_id);
            lemma_max_positive_id_bounds(st.playlists);
            assert(nx.playlists.drop_last() == st.playlists);
            assert forall|a: int, b: int| 0 <= a < b < nx.playlists.len() implies (#[trigger] nx.playlists[a]).id
                != (#[trigger] nx.playlists[b]).id by {
                assert(nx.playlists[a] == st.playlists[a]);
                if b < st.playlists.len() {
                    assert(nx.playlists[b] == st.playlists[b]);
                } else if has_local_id(st.playlists, id0) {
                    assert(st.playlists[a].id <= max_positive_id(st.playlists) || st.playlists[a].id <= 0);
                } else {
                    assert(st.playlists[a].id != id0);
                }
            }
        }
    }
}

proof fn lemma_with_rank_ids(ps: Seq<LocalPlaylistView>, k: int)
    requires
        ids_distinct(ps),
    ensures
        ids_distinct(with_rank(ps, k)),
    decreases ps.len(),
{
    if ps.len() > 0 {
        let q = ps.drop_last();
        assert(ids_distinct(q)) by {
            assert forall|a: int, b: int| 0 <= a < b < q.len() implies (#[trigger] q[a]).id != (#[trigger] q[b]).id by {
                assert(q[a] == ps[a]);
                assert(q[b] == ps[b]);
            }
        }
        lemma_with_rank_ids(q, k);
        lemma_with_rank_members(q, k);
        let w = with_rank(ps, k);
        let wq = with_rank(q, k);
        if rank(ps.last()) == k {
            assert forall|a: int, b: int| 0 <= a < b < w.len() implies (#[trigger] w[a]).id != (#[trigger] w[b]).id by {
                assert(w[a] == wq[a]);
                if b < wq.len() {
                    assert(w[b] == wq[b]);
                } else {
                    assert(member_of_rank(q, wq[a], k));
                    let x = choose|x: int| 0 <= x < q.len() && q[x] == wq[a] && rank(wq[a]) == k;
                    assert(ps[x] == q[x]);
                    assert(w[b] == ps[ps.len() - 1]);
                }
            }
        }
    }
}

/// Writing the merged playlists back gives every playlist an id of its own:
/// no two playlists of the local store that it leaves share an id (as long
/// as the ids handed out fit in `i64`).
pub proof fn law_written_back_ids_distinct(merged: Seq<PlaylistView>, store: Seq<LocalPlaylistView>)
    requires
        written_back(merged, store).max_id <= i64::MAX,
    ensures
        ids_distinct(ranked(written_back(merged, store).playlists)),
{
    let ps = written_back(merged, store).playlists;
    lemma_write_back_ids(merged, store, merged.len());
    lemma_with_rank_ids(ps, -1);
    lemma_with_rank_ids(ps, 0);
    lemma_with_rank_ids(ps, 1);
    lemma_with_rank_members(ps, -1);
    lemma_with_rank_members(ps, 0);
    lemma_with_rank_members(ps, 1);
    let a0 = with_rank(ps, -1);
    let b0 = with_rank(ps, 0);
    let c0 = with_rank(ps, 1);
    let r = ranked(ps);
    assert forall|i: int, j: int| 0 <= i < j < r.len() implies (#[trigger] r[i]).id != (#[trigger] r[j]).id by {
        let la = a0.len() as int;
        let lb = b0.len() as int;
        if j < la {
            assert(r[i] == a0[i] && r[j] == a0[j]);
        } else if i >= la && j < la + lb {
            assert(r[i] == b0[i - la] && r[j] == b0[j - la]);
        } else if i >= la + lb {
            assert(r[i] == c0[i - la - lb] && r[j] == c0[j - la - lb]);
        } else {
            let (x, kx) = if i < la { (a0[i], -1int) } else { (b0[i - la], 0int) };
            let (y, ky) = if j < la + lb { (b0[j - la], 0int) } else { (c0[j - la - lb], 1int) };
            assert(r[i] == x);
            assert(r[j] == y);
            if i < la {
                assert(member_of_rank(ps, a0[i], -1));
            } else {
                assert(member_of_rank(ps, b0[i - la], 0));
            }
            if j < la + lb {
                assert(member_of_rank(ps, b0[j - la], 0));
            } else {
                assert(member_of_rank(ps, c0[j - la - lb], 1));
            }
            assert(rank(x) == kx);
            assert(rank(y) == ky);
            assert(x.id != y.id);
        }
    }
}

/// Writes the merged playlists back into the local store: deleted ones and
/// repeated trimmed names are skipped; system playlists keep their ids,
/// other playlists keep a positive id, take the id of a local playlist with
/// the same name, or get a fresh one; an id taken already is replaced by a
/// fresh one; tracks without an id or with a repeated id are dropped; the
/// favourites come first and the local files last; the next id is raised
/// above every id.
pub fn save_synced_playlists(store: &mut PlaylistStore, merged: &SyncData)
    requires
        written_back(sync_playlist_views(merged.playlists@), playlist_views(old(store).playlists@)).max_id
            <= i64::MAX,
        max_positive_id(
            ranked(written_back(sync_playlist_views(merged.playlists@), playlist_views(old(store).playlists@)).playlists),
        ) < i64::MAX,
    ensures
        playlist_views(final(store).playlists@) == ranked(
            written_back(sync_playlist_views(merged.playlists@), playlist_views(old(store).playlists@)).playlists,
        ),
        final(store).next_id == fixed_next_id(
            old(store).next_id,
            max_positive_id(
                ranked(
                    written_back(sync_playlist_views(merged.playlists@), playlist_views(old(store).playlists@)).playlists,
                ),
            ),
        ),
        ids_distinct(playlist_views(final(store).playlists@)),
{
    proof {
        law_written_back_ids_distinct(sync_playlist_views(merged.playlists@), playlist_views(store.playlists@));
    }
    let ghost mv = sync_playlist_views(merged.playlists@);
    let ghost sv = playlist_views(store.playlists@);
    let ghost n = merged.playlists@.len();
    let mut max_id: i64 = max_positive_id_exec(&store.playlists);
    let mut new_playlists: Vec<Playlist> = Vec::new();
    let mut seen: Vec<String> = Vec::new();
    let mut i: usize = 0;
    while i < merged.playlists.len()
        invariant
            i <= merged.playlists@.len(),
            n == merged.playlists@.len(),
            mv == sync_playlist_views(merged.playlists@),
            sv == playlist_views(store.playlists@),
            store.playlists@ == old(store).playlists@,
            store.next_id == old(store).next_id,
            write_back_upto(mv, sv, n).max_id <= i64::MAX,
            write_back_upto(mv, sv, i as nat).playlists == playlist_views(new_playlists@),
            write_back_upto(mv, sv, i as nat).max_id == max_id as int,
            write_back_upto(mv, sv, i as nat).seen == seen@.map_values(|s: String| s@),
        decreases merged.playlists@.len() - i,
    {
        proof {
            lemma_write_back_max_grows(mv, sv, (i + 1) as nat, n);
        }
        let sp = &merged.playlists[i];
        let ghost spv = mv[i as int];
        assert(spv == sp@);
        if !sp.is_deleted {
            let normalized = trim_str(sp.name.as_str());
            if !seen_contains(&seen, &normalized) {
                let ghost st = write_back_upto(mv, sv, i as nat);
                let sys = resolve_system_id(sp.id.as_str(), sp.name.as_str());
                let mut local_id: i64 = sys;
                if sys == 0 {
                    let parsed = parse_i64(sp.id.as_str());
                    let positive = match parsed {
                        Some(v) => v > 0,
                        None => false,
                    };
                    if positive {
                        local_id = parsed.unwrap();
                    } else {
                        match find_name(&store.playlists, sp.name.as_str()) {
                            Some(k) => {
                                local_id = store.playlists[k].id;
                            },
                            None => {
                                max_id = max_id + 1;
                                local_id = max_id;
                            },
                        }
                    }
                }
                assert(chosen_id(spv, sv, st.max_id) == (local_id as int, max_id as int));
                if has_local_id_exec(&new_playlists, local_id) {
                    let top = max_positive_id_exec(&new_playlists);
                    if top > max_id {
                        max_id = top;
                    }
                    max_id = max_id + 1;
                    local_id = max_id;
                }
                let conv = songs_to_tracks(&sp.songs);
                let tracks = unique_tracks(&conv);
                let modified: i64 = if sp.modified_at < 0 { 0 } else { sp.modified_at };
                let p = Playlist { id: local_id, name: sp.name.clone(), tracks, modified_at: modified as u64 };
                let ghost prev = new_playlists@;
                new_playlists.push(p);
                assert(playlist_views(new_playlists@) =~= playlist_views(prev).push(p@));
                let ghost prev_seen = seen@;
                seen.push(normalized);
                assert(seen@.map_values(|s: String| s@) =~= prev_seen.map_values(|s: String| s@).push(trim(sp.name@)));
            }
        }
        i = i + 1;
    }
    let mut ordered: Vec<Playlist> = Vec::new();
    push_with_rank(&new_playlists, -1, &mut ordered);
    push_with_rank(&new_playlists, 0, &mut ordered);
    push_with_rank(&new_playlists, 1, &mut ordered);
    assert(playlist_views(ordered@) =~= ranked(playlist_views(new_playlists@)));
    store.playlists = ordered;
    store.fix_next_id();
}


// ===== what else a synchronisation keeps =====

/// The favourite playlists of `fs` that are not deleted, in order.
pub open spec fn live_favorite_views(fs: Seq<FavoriteView>) -> Seq<FavoriteView>
    decreases fs.len(),
{
    if fs.len() == 0 {
        fs
    } else {
        let rest = live_favorite_views(fs.drop_last());
        if fs.last().is_deleted { rest } else { rest.push(fs.last()) }
    }
}

/// The favourite playlists of the merged data that are kept locally: those
/// not deleted.
pub fn live_favorites(merged: &SyncData) -> (r: Vec<SyncFavoritePlaylist>)
    ensures
        favorite_views(r@) == live_favorite_views(favorite_views(merged.favorite_playlists@)),
{
    let ghost all = favorite_views(merged.favorite_playlists@);
    let mut r: Vec<SyncFavoritePlaylist> = Vec::new();
    let mut i: usize = 0;
    while i < merged.favorite_playlists.len()
        invariant
            i <= merged.favorite_playlists@.len(),
            all == favorite_views(merged.favorite_playlists@),
            favorite_views(r@) == live_favorite_views(all.take(i as int)),
        decreases merged.favorite_playlists@.len() - i,
    {
        assert(all.take(i + 1).drop_last() =~= all.take(i as int));
        if !merged.favorite_playlists[i].is_deleted {
            let f = merged.favorite_playlists[i].clone();
            let ghost prev = r@;
            r.push(f);
            assert(favorite_views(r@) =~= favorite_views(prev).push(f@));
        }
        i = i + 1;
    }
    assert(all.take(all.len() as int) =~= all);
    r
}

/// The playlists of `ps` that are not deleted, last first.
pub open spec fn live_reversed(ps: Seq<PlaylistView>) -> Seq<PlaylistView>
    decreases ps.len(),
{
    if ps.len() == 0 {
        ps
    } else {
        let rest = live_reversed(ps.drop_last());
        if ps.last().is_deleted { rest } else { seq![ps.last()] + rest }
    }
}

/// `e` records the playlist `p`: its id and the stable keys of its songs.
pub open spec fn records(e: SnapshotEntry, p: PlaylistView) -> bool {
    &&& e.playlist_id@ == p.id
    &&& e.song_keys@.len() == p.songs.len()
    &&& forall|j: int| 0 <= j < p.songs.len() ==> (#[trigger] e.song_keys@[j])@ == song_key(p.songs[j])
}

/// What the next synchronisation takes as the last synchronised state: for
/// each playlist that is not deleted, its id and the keys of its songs; when
/// two playlists share an id the later one comes first, so that it is the
/// one found.
pub fn base_snapshot(merged: &SyncData) -> (r: Vec<SnapshotEntry>)
    ensures
        r@.len() == live_reversed(sync_playlist_views(merged.playlists@)).len(),
        forall|k: int|
            0 <= k < r@.len() ==> records(#[trigger] r@[k], live_reversed(sync_playlist_views(merged.playlists@))[k]),
{
    let ghost all = sync_playlist_views(merged.playlists@);
    let mut r: Vec<SnapshotEntry> = Vec::new();
    let mut i: usize = 0;
    while i < merged.playlists.len()
        invariant
            i <= merged.playlists@.len(),
            all == sync_playlist_views(merged.playlists@),
            r@.len() == live_reversed(all.take(i as int)).len(),
            forall|k: int| 0 <= k < r@.len() ==> records(#[trigger] r@[k], live_reversed(all.take(i as int))[k]),
        decreases merged.playlists@.len() - i,
    {
        assert(all.take(i + 1).drop_last() =~= all.take(i as int));
        let p = &merged.playlists[i];
        assert(all.take(i + 1).last() == p@);
        if !p.is_deleted {
            let e = SnapshotEntry { playlist_id: p.id.clone(), song_keys: song_keys(&p.songs) };
            let ghost prev = r@;
            let ghost prev_live = live_reversed(all.take(i as int));
            r.insert(0, e);
            assert(live_reversed(all.take(i + 1)) == seq![p@] + prev_live);
            assert forall|k: int| 0 <= k < r@.len() implies records(#[trigger] r@[k], live_reversed(all.take(i + 1))[k]) by {
                if k > 0 {
                    assert(r@[k] == prev[k - 1]);
                }
            }
        }
        i = i + 1;
    }
    assert(all.take(all.len() as int) =~= all);
    r
}

/// The number of songs over a list of playlists.
pub open spec fn total_songs(ps: Seq<SyncPlaylist>) -> int
    decreases ps.len(),
{
    if ps.len() == 0 {
        0
    } else {
        total_songs(ps.drop_last()) + ps.last().songs@.len()
    }
}

fn total_songs_exec(ps: &Vec<SyncPlaylist>) -> (r: usize)
    requires
        total_songs(ps@) <= i32::MAX,
    ensures
        r == total_songs(ps@),
{
    proof {
        lemma_total_songs_prefix(ps@);
    }
    let mut total: usize = 0;
    let mut i: usize = 0;
    while i < ps.len()
        invariant
            i <= ps@.len(),
            total == total_songs(ps@.take(i as int)),
            total_songs(ps@) <= i32::MAX,
            forall|j: int| 0 <= j <= ps@.len() ==> total_songs(#[trigger] ps@.take(j)) <= total_songs(ps@),
        decreases ps@.len() - i,
    {
        assert(ps@.take(i + 1).drop_last() =~= ps@.take(i as int));
        assert(total_songs(ps@.take(i + 1)) <= total_songs(ps@));
        total = total + ps[i].songs.len();
        i = i + 1;
    }
    assert(ps@.take(ps@.len() as int) =~= ps@);
    total
}

proof fn lemma_total_songs_prefix(ps: Seq<SyncPlaylist>)
    ensures
        forall|j: int| 0 <= j <= ps.len() ==> total_songs(#[trigger] ps.take(j)) <= total_songs(ps),
    decreases ps.len(),
{
    if ps.len() > 0 {
        lemma_total_songs_prefix(ps.drop_last());
        assert forall|j: int| 0 <= j <= ps.len() implies total_songs(#[trigger] ps.take(j)) <= total_songs(ps) by {
            if j < ps.len() {
                assert(ps.take(j) =~= ps.drop_last().take(j));
            } else {
                assert(ps.take(j) =~= ps);
            }
        }
    }
}

/// `x` or 0, whichever is larger.
pub open spec fn at_least_zero(x: int) -> int {
    if x < 0 { 0 } else { x }
}

/// A successful outcome with `message` and no counts.
pub fn success_result(message: &str) -> (r: SyncResult)
    ensures
        r.success,
        r.message@ == message@,
        r.playlists_added == 0,
        r.playlists_updated == 0,
        r.playlists_deleted == 0,
        r.songs_added == 0,
        r.songs_removed == 0,
{
    SyncResult {
        success: true,
        message: str_to_string(message),
        playlists_added: 0,
        playlists_updated: 0,
        playlists_deleted: 0,
        songs_added: 0,
        songs_removed: 0,
    }
}

/// The outcome after the merged data was uploaded: how many playlists and
/// songs it holds beyond the remote data, never below 0.
pub fn completed_result(merged: &SyncData, remote: &SyncData) -> (r: SyncResult)
    requires
        merged.playlists@.len() <= i32::MAX,
        remote.playlists@.len() <= i32::MAX,
        total_songs(merged.playlists@) <= i32::MAX,
        total_songs(remote.playlists@) <= i32::MAX,
    ensures
        r.success,
        r.message@ == "Sync complete"@,
        r.playlists_added == at_least_zero(merged.playlists@.len() - remote.playlists@.len()),
        r.playlists_updated == 0,
        r.playlists_deleted == 0,
        r.songs_added == at_least_zero(total_songs(merged.playlists@) - total_songs(remote.playlists@)),
        r.songs_removed == 0,
{
    proof {
        lemma_total_songs_prefix(merged.playlists@);
        lemma_total_songs_prefix(remote.playlists@);
    }
    let playlists_added: i32 = merged.playlists.len() as i32 - remote.playlists.len() as i32;
    let songs_added: i32 = total_songs_exec(&merged.playlists) as i32 - total_songs_exec(&remote.playlists) as i32;
    let mut r = success_result("Sync complete");
    r.playlists_added = if playlists_added < 0 { 0 } else { playlists_added };
    r.songs_added = if songs_added < 0 { 0 } else { songs_added };
    r
}

/// Whether the merged data is to be uploaded: the remote file changed since
/// the last synchronisation, or the merge changed the data.
pub fn needs_upload(remote_changed: bool, remote: &SyncData, merged: &SyncData) -> (r: bool)
    ensures
        r == (remote_changed || spec_has_data_changed(*remote, *merged)),
{
    remote_changed || has_data_changed(remote, merged)
}

/// Whether a remote file holds the compressed form: its name ends in `.bin`.
pub fn is_binary_name(filename: &str) -> (r: bool)
    ensures
        r == (".bin"@.len() <= filename@.len() && filename@.subrange(
            filename@.len() - ".bin"@.len(),
            filename@.len() as int,
        ) == ".bin"@),
{
    ends_with_str(filename, ".bin")
}

/// `NeriPlayer Desktop (<hostname>)`.
pub open spec fn device_name_of(hostname: Seq<char>) -> Seq<char> {
    "NeriPlayer Desktop ("@ + hostname + ")"@
}

/// The synchronised form of a local playlist, its songs added now.
pub fn local_to_sync_playlist(pl: &Playlist) -> (r: SyncPlaylist)
    ensures
        r.id@ == int_decimal(pl.id as int),
        r.name@ == pl.name@,
        r.songs@.len() == pl.tracks@.len(),
        forall|j: int| 0 <= j < pl.tracks@.len() ==> song_from_track(pl.tracks@[j]@, #[trigger] r.songs@[j]),
        r.created_at == pl.modified_at as i64,
        r.modified_at == pl.modified_at as i64,
        !r.is_deleted,
{
    let mut songs: Vec<SyncSong> = Vec::new();
    let mut i: usize = 0;
    while i < pl.tracks.len()
        invariant
            i <= pl.tracks@.len(),
            songs@.len() == i,
            forall|j: int| 0 <= j < i ==> song_from_track(pl.tracks@[j]@, #[trigger] songs@[j]),
        decreases pl.tracks@.len() - i,
    {
        songs.push(track_to_sync_song(&pl.tracks[i]));
        i = i + 1;
    }
    SyncPlaylist {
        id: i64_to_string(pl.id),
        name: pl.name.clone(),
        songs,
        created_at: pl.modified_at as i64,
        modified_at: pl.modified_at as i64,
        is_deleted: false,
    }
}

/// The data of this device to synchronise: its playlists from the local
/// store, with this device's id and name, stamped now.
pub fn build_local_sync_data(store: &PlaylistStore, device_id: String, hostname: &str) -> (r: SyncData)
    ensures
        r.version@ == spec_default_version(),
        r.device_id@ == device_id@,
        r.device_name@ == device_name_of(hostname@),
        r.playlists@.len() == store.playlists@.len(),
        forall|k: int|
            0 <= k < store.playlists@.len() ==> {
                let p = #[trigger] r.playlists@[k];
                let l = store.playlists@[k];
                &&& p.id@ == int_decimal(l.id as int)
                &&& p.name@ == l.name@
                &&& p.songs@.len() == l.tracks@.len()
                &&& forall|j: int| 0 <= j < l.tracks@.len() ==> song_from_track(l.tracks@[j]@, #[trigger] p.songs@[j])
                &&& p.created_at == l.modified_at as i64
                &&& p.modified_at == l.modified_at as i64
                &&& !p.is_deleted
            },
        r.favorite_playlists@.len() == 0,
        r.recent_plays@.len() == 0,
        r.sync_log@.len() == 0,
        r.recent_play_deletions@.len() == 0,
{
    let mut playlists: Vec<SyncPlaylist> = Vec::new();
    let mut i: usize = 0;
    while i < store.playlists.len()
        invariant
            i <= store.playlists@.len(),
            playlists@.len() == i,
            forall|k: int|
                0 <= k < i ==> {
                    let p = #[trigger] playlists@[k];
                    let l = store.playlists@[k];
                    &&& p.id@ == int_decimal(l.id as int)
                    &&& p.name@ == l.name@
                    &&& p.songs@.len() == l.tracks@.len()
                    &&& forall|j: int| 0 <= j < l.tracks@.len() ==> song_from_track(l.tracks@[j]@, #[trigger] p.songs@[j])
                    &&& p.created_at == l.modified_at as i64
                    &&& p.modified_at == l.modified_at as i64
                    &&& !p.is_deleted
                },
        decreases store.playlists@.len() - i,
    {
        playlists.push(local_to_sync_playlist(&store.playlists[i]));
        i = i + 1;
    }
    let mut name = str_to_string("NeriPlayer Desktop (");
    push_str(&mut name, hostname);
    push_str(&mut name, ")");
    SyncData {
        version: default_version(),
        device_id,
        device_name: name,
        last_modified: now_millis(),
        playlists,
        favorite_playlists: Vec::new(),
        recent_plays: Vec::new(),
        sync_log: Vec::new(),
        recent_play_deletions: Vec::new(),
    }
}

} // verus!
