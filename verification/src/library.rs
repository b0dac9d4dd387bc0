use vstd::prelude::*;
use crate::clock::now_millis;
use crate::error::AppError;
use crate::order::{sorted_desc, stable_order_desc};
use crate::state::{TrackInfo, TrackView, track_views};
use crate::text::{opt_view, str_eq, trim, trim_str};

verus! {

/// A local playlist.
pub struct Playlist {
    pub id: i64,
    pub name: String,
    pub tracks: Vec<TrackInfo>,
    pub modified_at: u64,
}

/// A local playlist as plain values.
pub struct LocalPlaylistView {
    pub id: i64,
    pub name: Seq<char>,
    pub tracks: Seq<TrackView>,
    pub modified_at: u64,
}

impl View for Playlist {
    type V = LocalPlaylistView;

    open spec fn view(&self) -> LocalPlaylistView {
        LocalPlaylistView { id: self.id, name: self.name@, tracks: track_views(self.tracks@), modified_at: self.modified_at }
    }
}

/// The views of a list of playlists.
pub open spec fn playlist_views(ps: Seq<Playlist>) -> Seq<LocalPlaylistView> {
    ps.map_values(|p: Playlist| p@)
}

/// Copy of a list of tracks.
pub fn clone_tracks(v: &Vec<TrackInfo>) -> (r: Vec<TrackInfo>)
    ensures
        r@ == v@,
{
    let mut r: Vec<TrackInfo> = Vec::new();
    let mut i: usize = 0;
    while i < v.len()
        invariant
            i <= v@.len(),
            r@ == v@.take(i as int),
        decreases v@.len() - i,
    {
        r.push(v[i].clone());
        i = i + 1;
        assert(r@ =~= v@.take(i as int));
    }
    assert(v@.take(v@.len() as int) =~= v@);
    r
}

impl Clone for Playlist {
    fn clone(&self) -> (r: Self)
        ensures
            r@ == self@,
    {
        Playlist {
            id: self.id,
            name: self.name.clone(),
            tracks: clone_tracks(&self.tracks),
            modified_at: self.modified_at,
        }
    }
}

/// All local playlists, with the id that the next created playlist gets.
pub struct PlaylistStore {
    pub playlists: Vec<Playlist>,
    pub next_id: i64,
}

impl Default for PlaylistStore {
    fn default() -> (r: Self)
        ensures
            r.playlists@.len() == 0,
            r.next_id == 0,
    {
        PlaylistStore { playlists: Vec::new(), next_id: 0 }
    }
}

/// The id that a new playlist gets: ordinary ids start at 1.
pub open spec fn fresh_id(next_id: i64) -> i64 {
    if next_id < 1 { 1 } else { next_id }
}

/// `ps` without the playlists whose id is `id`.
pub open spec fn without_id(ps: Seq<LocalPlaylistView>, id: i64) -> Seq<LocalPlaylistView>
    decreases ps.len(),
{
    if ps.len() == 0 {
        ps
    } else {
        let rest = without_id(ps.drop_last(), id);
        if ps.last().id == id { rest } else { rest.push(ps.last()) }
    }
}

/// The largest positive id among `ps`, 0 when there is none.
pub open spec fn max_positive_id(ps: Seq<LocalPlaylistView>) -> i64
    decreases ps.len(),
{
    if ps.len() == 0 {
        0
    } else {
        let rest = max_positive_id(ps.drop_last());
        if ps.last().id > rest { ps.last().id } else { rest }
    }
}

/// The next id after it is raised above `max` and to at least 1.
pub open spec fn fixed_next_id(next_id: i64, max: i64) -> i64 {
    let raised = if next_id <= max { max + 1 } else { next_id as int };
    (if raised < 1 { 1 } else { raised }) as i64
}

/// The largest positive id among `ps`, 0 when there is none.
pub fn max_positive_id_exec(ps: &Vec<Playlist>) -> (r: i64)
    ensures
        r == max_positive_id(playlist_views(ps@)),
        r >= 0,
{
    let ghost all = playlist_views(ps@);
    let mut max: i64 = 0;
    let mut i: usize = 0;
    while i < ps.len()
        invariant
            i <= ps@.len(),
            all == playlist_views(ps@),
            max == max_positive_id(all.take(i as int)),
            max >= 0,
        decreases ps@.len() - i,
    {
        assert(all.take(i + 1).drop_last() =~= all.take(i as int));
        if ps[i].id > max {
            max = ps[i].id;
        }
        i = i + 1;
    }
    assert(all.take(all.len() as int) =~= all);
    max
}

impl PlaylistStore {
    /// Appends an empty playlist named `name`, stamped `now`, with the next
    /// ordinary id, and gives that id.
    pub fn create_at(&mut self, name: String, now: u64) -> (r: i64)
        requires
            old(self).next_id < i64::MAX,
        ensures
            r == fresh_id(old(self).next_id),
            final(self).next_id == r + 1,
            playlist_views(final(self).playlists@) == playlist_views(old(self).playlists@).push(
                LocalPlaylistView { id: r, name: name@, tracks: Seq::empty(), modified_at: now },
            ),
    {
        if self.next_id < 1 {
            self.next_id = 1;
        }
        let id = self.next_id;
        self.next_id = self.next_id + 1;
        let p = Playlist { id, name, tracks: Vec::new(), modified_at: now };
        assert(track_views(p.tracks@) =~= Seq::<TrackView>::empty());
        let ghost prev = self.playlists@;
        self.playlists.push(p);
        assert(playlist_views(self.playlists@) =~= playlist_views(prev).push(p@));
        id
    }

    /// Appends an empty playlist named `name`, stamped with the current
    /// time, with the next ordinary id, and gives that id.
    pub fn create(&mut self, name: String) -> (r: i64)
        requires
            old(self).next_id < i64::MAX,
        ensures
            r == fresh_id(old(self).next_id),
            final(self).next_id == r + 1,
            final(self).playlists@.len() == old(self).playlists@.len() + 1,
            playlist_views(final(self).playlists@).drop_last() == playlist_views(old(self).playlists@),
            final(self).playlists@.last()@.id == r,
            final(self).playlists@.last()@.name == name@,
            final(self).playlists@.last()@.tracks.len() == 0,
    {
        let now = now_millis();
        let r = self.create_at(name, now as u64);
        proof {
            let v = playlist_views(self.playlists@);
            assert(v.drop_last() =~= playlist_views(old(self).playlists@));
            assert(v[v.len() - 1] == self.playlists@.last()@);
        }
        r
    }

    /// Removes the playlists with id `id`; tells whether there was one.
    pub fn delete(&mut self, id: i64) -> (r: bool)
        ensures
            playlist_views(final(self).playlists@) == without_id(playlist_views(old(self).playlists@), id),
            final(self).next_id == old(self).next_id,
            r == exists|i: int| 0 <= i < old(self).playlists@.len() && #[trigger] old(self).playlists@[i].id == id,
    {
        let ghost all = playlist_views(self.playlists@);
        let mut kept: Vec<Playlist> = Vec::new();
        let mut found = false;
        let mut i: usize = 0;
        while i < self.playlists.len()
            invariant
                i <= self.playlists@.len(),
                all == playlist_views(self.playlists@),
                self.playlists@ == old(self).playlists@,
                playlist_views(kept@) == without_id(all.take(i as int), id),
                found == exists|k: int| 0 <= k < i && #[trigger] self.playlists@[k].id == id,
            decreases self.playlists@.len() - i,
        {
            assert(all.take(i + 1).drop_last() =~= all.take(i as int));
            if self.playlists[i].id != id {
                let p = self.playlists[i].clone();
                let ghost prev = kept@;
                kept.push(p);
                assert(playlist_views(kept@) =~= playlist_views(prev).push(p@));
            } else {
                found = true;
            }
            i = i + 1;
        }
        assert(all.take(all.len() as int) =~= all);
        self.playlists = kept;
        found
    }

    /// Raises the next id above every positive playlist id, and to at least 1.
    pub fn fix_next_id(&mut self)
        requires
            max_positive_id(playlist_views(old(self).playlists@)) < i64::MAX,
        ensures
            final(self).playlists@ == old(self).playlists@,
            final(self).next_id == fixed_next_id(old(self).next_id, max_positive_id(playlist_views(old(self).playlists@))),
    {
        let max = max_positive_id_exec(&self.playlists);
        if self.next_id <= max {
            self.next_id = max + 1;
        }
        if self.next_id < 1 {
            self.next_id = 1;
        }
    }
}


// ===== duplicate names =====

/// Playlist `i` of `ps` survives the clean-up of duplicate names: among the
/// playlists whose trimmed name equals its own, it is the first with the
/// most tracks.
pub open spec fn survives(ps: Seq<LocalPlaylistView>, i: int) -> bool {
    forall|j: int|
        0 <= j < ps.len() && j != i && #[trigger] trim(ps[j].name) == trim(ps[i].name) ==> (j < i
            ==> ps[j].tracks.len() < ps[i].tracks.len()) && (j > i ==> ps[j].tracks.len() <= ps[i].tracks.len())
}

/// The surviving playlists among the first `n` of `ps`, in order.
pub open spec fn survivors(ps: Seq<LocalPlaylistView>, n: nat) -> Seq<LocalPlaylistView>
    decreases n,
{
    if n == 0 {
        Seq::empty()
    } else {
        let rest = survivors(ps, (n - 1) as nat);
        if survives(ps, n - 1) { rest.push(ps[n - 1]) } else { rest }
    }
}

/// The trimmed names of a list of playlists.
fn trimmed_names(ps: &Vec<Playlist>) -> (r: Vec<String>)
    ensures
        r@.len() == ps@.len(),
        forall|i: int| 0 <= i < ps@.len() ==> (#[trigger] r@[i])@ == trim(ps@[i].name@),
{
    let mut r: Vec<String> = Vec::new();
    let mut i: usize = 0;
    while i < ps.len()
        invariant
            i <= ps@.len(),
            r@.len() == i,
            forall|k: int| 0 <= k < i ==> (#[trigger] r@[k])@ == trim(ps@[k].name@),
        decreases ps@.len() - i,
    {
        r.push(trim_str(ps[i].name.as_str()));
        i = i + 1;
    }
    r
}

fn survives_exec(ps: &Vec<Playlist>, names: &Vec<String>, i: usize) -> (r: bool)
    requires
        i < ps@.len(),
        names@.len() == ps@.len(),
        forall|k: int| 0 <= k < ps@.len() ==> (#[trigger] names@[k])@ == trim(ps@[k].name@),
    ensures
        r == survives(playlist_views(ps@), i as int),
{
    let ghost v = playlist_views(ps@);
    let mut j: usize = 0;
    while j < ps.len()
        invariant
            i < ps@.len(),
            j <= ps@.len(),
            v == playlist_views(ps@),
            names@.len() == ps@.len(),
            forall|k: int| 0 <= k < ps@.len() ==> (#[trigger] names@[k])@ == trim(ps@[k].name@),
            forall|k: int|
                0 <= k < j && k != i && #[trigger] trim(v[k].name) == trim(v[i as int].name) ==> (k < i
                    ==> v[k].tracks.len() < v[i as int].tracks.len()) && (k > i ==> v[k].tracks.len()
                    <= v[i as int].tracks.len()),
        decreases ps@.len() - j,
    {
        if j != i && str_eq(names[j].as_str(), names[i].as_str()) {
            let lj = ps[j].tracks.len();
            let li = ps[i].tracks.len();
            if (j < i && lj >= li) || (j > i && lj > li) {
                assert(trim(v[j as int].name) == trim(v[i as int].name));
                return false;
            }
        }
        j = j + 1;
    }
    true
}

impl PlaylistStore {
    /// Keeps, of the playlists that share a trimmed name, only the first one
    /// with the most tracks; tells whether any was removed.
    pub fn remove_duplicate_names(&mut self) -> (r: bool)
        ensures
            playlist_views(final(self).playlists@) == survivors(
                playlist_views(old(self).playlists@),
                old(self).playlists@.len(),
            ),
            final(self).next_id == old(self).next_id,
            r == exists|i: int|
                0 <= i < old(self).playlists@.len() && !#[trigger] survives(
                    playlist_views(old(self).playlists@),
                    i,
                ),
    {
        let ghost all = playlist_views(self.playlists@);
        let names = trimmed_names(&self.playlists);
        let mut kept: Vec<Playlist> = Vec::new();
        let mut removed = false;
        let mut i: usize = 0;
        while i < self.playlists.len()
            invariant
                i <= self.playlists@.len(),
                all == playlist_views(self.playlists@),
                self.playlists@ == old(self).playlists@,
                names@.len() == self.playlists@.len(),
                forall|k: int| 0 <= k < self.playlists@.len() ==> (#[trigger] names@[k])@ == trim(self.playlists@[k].name@),
                playlist_views(kept@) == survivors(all, i as nat),
                removed == exists|k: int| 0 <= k < i && !#[trigger] survives(all, k),
            decreases self.playlists@.len() - i,
        {
            if survives_exec(&self.playlists, &names, i) {
                let p = self.playlists[i].clone();
                let ghost prev = kept@;
                kept.push(p);
                assert(playlist_views(kept@) =~= playlist_views(prev).push(p@));
            } else {
                removed = true;
            }
            i = i + 1;
        }
        self.playlists = kept;
        removed
    }
}

// ===== summaries =====

/// Track `i` of `ts` has an id and no earlier track has the same id.
pub open spec fn first_of_its_id(ts: Seq<TrackView>, i: int) -> bool {
    ts[i].id.len() > 0 && forall|j: int| 0 <= j < i ==> (#[trigger] ts[j]).id != ts[i].id
}

/// The tracks among the first `n` of `ts` that have an id seen for the first
/// time, in order.
pub open spec fn unique_tracks_upto(ts: Seq<TrackView>, n: nat) -> Seq<TrackView>
    decreases n,
{
    if n == 0 {
        Seq::empty()
    } else {
        let rest = unique_tracks_upto(ts, (n - 1) as nat);
        if first_of_its_id(ts, n - 1) { rest.push(ts[n - 1]) } else { rest }
    }
}

/// The tracks of `ts` without those lacking an id and without repeats of an id.
pub open spec fn unique_tracks_of(ts: Seq<TrackView>) -> Seq<TrackView> {
    unique_tracks_upto(ts, ts.len())
}

fn first_of_its_id_exec(ts: &Vec<TrackInfo>, i: usize) -> (r: bool)
    requires
        i < ts@.len(),
    ensures
        r == first_of_its_id(track_views(ts@), i as int),
{
    if ts[i].id.as_str().is_empty() {
        return false;
    }
    let mut j: usize = 0;
    while j < i
        invariant
            i < ts@.len(),
            j <= i,
            forall|k: int| 0 <= k < j ==> (#[trigger] ts@[k]).id@ != ts@[i as int].id@,
        decreases i - j,
    {
        if str_eq(ts[j].id.as_str(), ts[i].id.as_str()) {
            assert(track_views(ts@)[j as int].id == track_views(ts@)[i as int].id);
            return false;
        }
        j = j + 1;
    }
    true
}

/// The tracks of `ts` that have an id, each id once, in order.
pub fn unique_tracks(ts: &Vec<TrackInfo>) -> (r: Vec<TrackInfo>)
    ensures
        track_views(r@) == unique_tracks_of(track_views(ts@)),
{
    let mut r: Vec<TrackInfo> = Vec::new();
    let mut i: usize = 0;
    while i < ts.len()
        invariant
            i <= ts@.len(),
            track_views(r@) == unique_tracks_upto(track_views(ts@), i as nat),
        decreases ts@.len() - i,
    {
        if first_of_its_id_exec(ts, i) {
            let t = ts[i].clone();
            let ghost prev = r@;
            r.push(t);
            assert(track_views(r@) =~= track_views(prev).push(t@));
        }
        i = i + 1;
    }
    r
}


/// What the playlist list shows of one playlist.
pub struct PlaylistInfo {
    pub id: i64,
    pub name: String,
    pub track_count: usize,
    pub modified_at: u64,
    pub cover_url: Option<String>,
}

/// The cover of a playlist: that of its last track.
pub open spec fn cover_of(ts: Seq<TrackView>) -> Option<Seq<char>> {
    if ts.len() == 0 { None } else { ts.last().cover_url }
}

/// `i` summarises the playlist `p`.
pub open spec fn summarises(i: PlaylistInfo, p: LocalPlaylistView) -> bool {
    &&& i.id == p.id
    &&& i.name@ == p.name
    &&& i.track_count == unique_tracks_of(p.tracks).len()
    &&& i.modified_at == p.modified_at
    &&& opt_view(i.cover_url) == cover_of(p.tracks)
}

/// A signed key that orders modification times as they are ordered.
pub open spec fn time_key(m: u64) -> i64 {
    (m - 0x8000_0000_0000_0000) as i64
}

/// The ordering keys of a list of playlists.
pub open spec fn time_keys(ps: Seq<LocalPlaylistView>) -> Seq<i64> {
    Seq::new(ps.len(), |i: int| time_key(ps[i].modified_at))
}

fn time_key_exec(m: u64) -> (r: i64)
    ensures
        r == time_key(m),
        r as int == m - 0x8000_0000_0000_0000,
{
    if m >= 0x8000_0000_0000_0000 {
        (m - 0x8000_0000_0000_0000) as i64
    } else {
        (m as i64) - 0x7fff_ffff_ffff_ffff - 1
    }
}

fn summary(p: &Playlist) -> (r: PlaylistInfo)
    ensures
        summarises(r, p@),
{
    let unique = unique_tracks(&p.tracks);
    let cover = if p.tracks.len() == 0 {
        None
    } else {
        match &p.tracks[p.tracks.len() - 1].cover_url {
            Some(c) => Some(c.clone()),
            None => None,
        }
    };
    PlaylistInfo { id: p.id, name: p.name.clone(), track_count: unique.len(), modified_at: p.modified_at, cover_url: cover }
}

/// Summaries of `ps`, the most recently modified first, equal times in list
/// order.
pub fn summaries(ps: &Vec<Playlist>) -> (r: Vec<PlaylistInfo>)
    ensures
        r@.len() == ps@.len(),
        sorted_desc(time_keys(playlist_views(ps@)), ps@.len()).len() == ps@.len(),
        forall|k: int|
            0 <= k < r@.len() ==> summarises(
                #[trigger] r@[k],
                playlist_views(ps@)[sorted_desc(time_keys(playlist_views(ps@)), ps@.len())[k]],
            ),
{
    let ghost v = playlist_views(ps@);
    let mut keys: Vec<i64> = Vec::new();
    let mut i: usize = 0;
    while i < ps.len()
        invariant
            i <= ps@.len(),
            v == playlist_views(ps@),
            keys@ == time_keys(v).take(i as int),
        decreases ps@.len() - i,
    {
        keys.push(time_key_exec(ps[i].modified_at));
        i = i + 1;
        assert(keys@ =~= time_keys(v).take(i as int));
    }
    assert(keys@ =~= time_keys(v));
    let order = stable_order_desc(&keys);
    let mut r: Vec<PlaylistInfo> = Vec::new();
    let mut k: usize = 0;
    while k < order.len()
        invariant
            k <= order@.len(),
            order@.len() == ps@.len(),
            v == playlist_views(ps@),
            keys@ == time_keys(v),
            r@.len() == k,
            sorted_desc(keys@, keys@.len()).len() == keys@.len(),
            forall|j: int| 0 <= j < order@.len() ==> order@[j] as int == sorted_desc(keys@, keys@.len())[j],
            forall|j: int| 0 <= j < order@.len() ==> #[trigger] order@[j] < keys@.len(),
            forall|j: int| 0 <= j < k ==> summarises(#[trigger] r@[j], v[sorted_desc(keys@, keys@.len())[j]]),
        decreases order@.len() - k,
    {
        let idx = order[k];
        assert(idx < ps@.len());
        r.push(summary(&ps[idx]));
        k = k + 1;
    }
    r
}

/// The playlist list: duplicate names are cleaned up first; tells too
/// whether the store changed.
pub fn list_playlists(store: &mut PlaylistStore) -> (r: (Vec<PlaylistInfo>, bool))
    ensures
        playlist_views(final(store).playlists@) == survivors(
            playlist_views(old(store).playlists@),
            old(store).playlists@.len(),
        ),
        final(store).next_id == old(store).next_id,
        r.1 == exists|i: int|
            0 <= i < old(store).playlists@.len() && !#[trigger] survives(playlist_views(old(store).playlists@), i),
        r.0@.len() == final(store).playlists@.len(),
        forall|k: int|
            0 <= k < r.0@.len() ==> summarises(
                #[trigger] r.0@[k],
                playlist_views(final(store).playlists@)[sorted_desc(
                    time_keys(playlist_views(final(store).playlists@)),
                    final(store).playlists@.len(),
                )[k]],
            ),
{
    let changed = store.remove_duplicate_names();
    let infos = summaries(&store.playlists);
    (infos, changed)
}

// ===== editing one playlist =====

/// The first position of a playlist with id `id`.
pub open spec fn position_of_id(ps: Seq<LocalPlaylistView>, id: i64) -> Option<int>
    decreases ps.len(),
{
    if ps.len() == 0 {
        None
    } else {
        match position_of_id(ps.drop_last(), id) {
            Some(k) => Some(k),
            None => if ps.last().id == id { Some(ps.len() - 1) } else { None },
        }
    }
}

proof fn lemma_position_of_id(ps: Seq<LocalPlaylistView>, id: i64)
    ensures
        match position_of_id(ps, id) {
            Some(k) => 0 <= k < ps.len() && ps[k].id == id && forall|j: int| 0 <= j < k ==> ps[j].id != id,
            None => forall|j: int| 0 <= j < ps.len() ==> ps[j].id != id,
        },
    decreases ps.len(),
{
    if ps.len() > 0 {
        lemma_position_of_id(ps.drop_last(), id);
        assert forall|j: int| 0 <= j < ps.len() - 1 implies ps.drop_last()[j] == ps[j] by {}
    }
}

/// The position of the first playlist with id `id`.
pub fn find_playlist(ps: &Vec<Playlist>, id: i64) -> (r: Option<usize>)
    ensures
        match r {
            Some(k) => k < ps@.len() && position_of_id(playlist_views(ps@), id) == Some(k as int),
            None => position_of_id(playlist_views(ps@), id) is None,
        },
{
    let ghost v = playlist_views(ps@);
    proof {
        lemma_position_of_id(v, id);
    }
    let mut i: usize = 0;
    while i < ps.len()
        invariant
            i <= ps@.len(),
            v == playlist_views(ps@),
            forall|j: int| 0 <= j < i ==> (#[trigger] ps@[j]).id != id,
        decreases ps@.len() - i,
    {
        if ps[i].id == id {
            proof {
                lemma_position_of_id(v, id);
                match position_of_id(v, id) {
                    Some(k) => {
                        assert(v[i as int].id == id);
                        assert(ps@[k].id == id);
                    },
                    None => {
                        assert(v[i as int].id == id);
                    },
                }
            }
            return Some(i);
        }
        i = i + 1;
    }
    proof {
        match position_of_id(v, id) {
            Some(k) => {
                assert(ps@[k].id == id);
            },
            None => {},
        }
    }
    None
}

/// The error for a playlist id that no playlist has.
pub open spec fn is_playlist_not_found(e: AppError) -> bool {
    e matches AppError::NotFound(m) && m@ == "Playlist not found"@
}

fn playlist_not_found() -> (e: AppError)
    ensures
        is_playlist_not_found(e),
{
    AppError::NotFound(crate::text::str_to_string("Playlist not found"))
}

/// The tracks of the playlist with id `id` that have an id, each id once.
pub fn playlist_tracks(store: &PlaylistStore, id: i64) -> (r: Result<Vec<TrackInfo>, AppError>)
    ensures
        match position_of_id(playlist_views(store.playlists@), id) {
            Some(p) => r matches Ok(v) && track_views(v@) == unique_tracks_of(playlist_views(store.playlists@)[p].tracks),
            None => r matches Err(e) && is_playlist_not_found(e),
        },
{
    match find_playlist(&store.playlists, id) {
        Some(p) => Ok(unique_tracks(&store.playlists[p].tracks)),
        None => Err(playlist_not_found()),
    }
}


/// Some track of `ts` has the id `id`.
pub open spec fn has_track_id(ts: Seq<TrackView>, id: Seq<char>) -> bool {
    exists|i: int| 0 <= i < ts.len() && (#[trigger] ts[i]).id == id
}

/// `ts` without the tracks whose id is `id`.
pub open spec fn without_track(ts: Seq<TrackView>, id: Seq<char>) -> Seq<TrackView>
    decreases ts.len(),
{
    if ts.len() == 0 {
        ts
    } else {
        let rest = without_track(ts.drop_last(), id);
        if ts.last().id == id { rest } else { rest.push(ts.last()) }
    }
}

fn has_track_id_exec(ts: &Vec<TrackInfo>, id: &str) -> (r: bool)
    ensures
        r == has_track_id(track_views(ts@), id@),
{
    let mut i: usize = 0;
    while i < ts.len()
        invariant
            i <= ts@.len(),
            forall|k: int| 0 <= k < i ==> (#[trigger] ts@[k]).id@ != id@,
        decreases ts@.len() - i,
    {
        if str_eq(ts[i].id.as_str(), id) {
            assert(track_views(ts@)[i as int].id == id@);
            return true;
        }
        i = i + 1;
    }
    false
}

fn without_track_exec(ts: &Vec<TrackInfo>, id: &str) -> (r: Vec<TrackInfo>)
    ensures
        track_views(r@) == without_track(track_views(ts@), id@),
{
    let mut r: Vec<TrackInfo> = Vec::new();
    let mut i: usize = 0;
    while i < ts.len()
        invariant
            i <= ts@.len(),
            track_views(r@) == without_track(track_views(ts@).take(i as int), id@),
        decreases ts@.len() - i,
    {
        assert(track_views(ts@).take(i + 1).drop_last() =~= track_views(ts@).take(i as int));
        if !str_eq(ts[i].id.as_str(), id) {
            let t = ts[i].clone();
            let ghost prev = r@;
            r.push(t);
            assert(track_views(r@) =~= track_views(prev).push(t@));
        }
        i = i + 1;
    }
    assert(track_views(ts@).take(ts@.len() as int) =~= track_views(ts@));
    r
}

/// The playlists after the playlist at `p` is renamed to `name` at `now`.
pub open spec fn renamed(ps: Seq<LocalPlaylistView>, p: int, name: Seq<char>, now: u64) -> Seq<LocalPlaylistView> {
    ps.update(p, LocalPlaylistView { name: name, modified_at: now, ..ps[p] })
}

/// The playlists after `track` is added to the playlist at `p` at `now`,
/// unless a track with its id is there already.
pub open spec fn with_track(ps: Seq<LocalPlaylistView>, p: int, track: TrackView, now: u64) -> Seq<LocalPlaylistView> {
    if has_track_id(ps[p].tracks, track.id) {
        ps
    } else {
        ps.update(p, LocalPlaylistView { tracks: ps[p].tracks.push(track), modified_at: now, ..ps[p] })
    }
}

/// The playlists after the tracks with id `id` leave the playlist at `p` at
/// `now`.
pub open spec fn with_track_removed(ps: Seq<LocalPlaylistView>, p: int, id: Seq<char>, now: u64) -> Seq<LocalPlaylistView> {
    ps.update(p, LocalPlaylistView { tracks: without_track(ps[p].tracks, id), modified_at: now, ..ps[p] })
}

impl PlaylistStore {
    /// Renames the first playlist with id `id`, stamped `now`; tells whether
    /// there was one.
    pub fn rename_at(&mut self, id: i64, name: String, now: u64) -> (r: bool)
        ensures
            final(self).next_id == old(self).next_id,
            match position_of_id(playlist_views(old(self).playlists@), id) {
                Some(p) => r && playlist_views(final(self).playlists@) == renamed(
                    playlist_views(old(self).playlists@),
                    p,
                    name@,
                    now,
                ),
                None => !r && final(self).playlists@ == old(self).playlists@,
            },
    {
        match find_playlist(&self.playlists, id) {
            Some(p) => {
                let mut pl = self.playlists[p].clone();
                pl.name = name;
                pl.modified_at = now;
                let ghost prev = self.playlists@;
                self.playlists.set(p, pl);
                assert(playlist_views(self.playlists@) =~= renamed(playlist_views(prev), p as int, name@, now));
                true
            },
            None => false,
        }
    }

    /// Renames the first playlist with id `id`, stamped with the current
    /// time; tells whether there was one.
    pub fn rename(&mut self, id: i64, name: String) -> (r: bool)
        ensures
            final(self).next_id == old(self).next_id,
            match position_of_id(playlist_views(old(self).playlists@), id) {
                Some(p) => r && exists|t: u64|
                    playlist_views(final(self).playlists@) == #[trigger] renamed(
                        playlist_views(old(self).playlists@),
                        p,
                        name@,
                        t,
                    ),
                None => !r && final(self).playlists@ == old(self).playlists@,
            },
    {
        let now = now_millis() as u64;
        self.rename_at(id, name, now)
    }

    /// Adds `track` to the playlist with id `playlist_id`, stamped `now`,
    /// unless a track with its id is there already.
    pub fn add_track_at(&mut self, playlist_id: i64, track: TrackInfo, now: u64) -> (r: Result<(), AppError>)
        ensures
            final(self).next_id == old(self).next_id,
            match position_of_id(playlist_views(old(self).playlists@), playlist_id) {
                Some(p) => r is Ok && playlist_views(final(self).playlists@) == with_track(
                    playlist_views(old(self).playlists@),
                    p,
                    track@,
                    now,
                ),
                None => r matches Err(e) && is_playlist_not_found(e) && final(self).playlists@ == old(
                    self,
                ).playlists@,
            },
    {
        match find_playlist(&self.playlists, playlist_id) {
            Some(p) => {
                if !has_track_id_exec(&self.playlists[p].tracks, track.id.as_str()) {
                    let mut pl = self.playlists[p].clone();
                    let ghost t = track;
                    let ghost before = pl.tracks@;
                    pl.tracks.push(track);
                    assert(track_views(pl.tracks@) =~= track_views(before).push(t@));
                    pl.modified_at = now;
                    let ghost prev = self.playlists@;
                    self.playlists.set(p, pl);
                    assert(playlist_views(self.playlists@) =~= with_track(playlist_views(prev), p as int, t@, now));
                } else {
                    assert(playlist_views(self.playlists@) =~= with_track(playlist_views(self.playlists@), p as int, track@, now));
                }
                Ok(())
            },
            None => Err(playlist_not_found()),
        }
    }

    /// Adds `track` to the playlist with id `playlist_id`, stamped with the
    /// current time, unless a track with its id is there already.
    pub fn add_track(&mut self, playlist_id: i64, track: TrackInfo) -> (r: Result<(), AppError>)
        ensures
            final(self).next_id == old(self).next_id,
            match position_of_id(playlist_views(old(self).playlists@), playlist_id) {
                Some(p) => r is Ok && exists|t: u64|
                    playlist_views(final(self).playlists@) == #[trigger] with_track(
                        playlist_views(old(self).playlists@),
                        p,
                        track@,
                        t,
                    ),
                None => r matches Err(e) && is_playlist_not_found(e) && final(self).playlists@ == old(
                    self,
                ).playlists@,
            },
    {
        let now = now_millis() as u64;
        self.add_track_at(playlist_id, track, now)
    }

    /// Removes the tracks with id `track_id` from the playlist with id
    /// `playlist_id`, stamped `now`.
    pub fn remove_track_at(&mut self, playlist_id: i64, track_id: &str, now: u64) -> (r: Result<(), AppError>)
        ensures
            final(self).next_id == old(self).next_id,
            match position_of_id(playlist_views(old(self).playlists@), playlist_id) {
                Some(p) => r is Ok && playlist_views(final(self).playlists@) == with_track_removed(
                    playlist_views(old(self).playlists@),
                    p,
                    track_id@,
                    now,
                ),
                None => r matches Err(e) && is_playlist_not_found(e) && final(self).playlists@ == old(
                    self,
                ).playlists@,
            },
    {
        match find_playlist(&self.playlists, playlist_id) {
            Some(p) => {
                let mut pl = self.playlists[p].clone();
                pl.tracks = without_track_exec(&pl.tracks, track_id);
                pl.modified_at = now;
                let ghost prev = self.playlists@;
                self.playlists.set(p, pl);
                assert(playlist_views(self.playlists@) =~= with_track_removed(playlist_views(prev), p as int, track_id@, now));
                Ok(())
            },
            None => Err(playlist_not_found()),
        }
    }

    /// Removes the tracks with id `track_id` from the playlist with id
    /// `playlist_id`, stamped with the current time.
    pub fn remove_track(&mut self, playlist_id: i64, track_id: &str) -> (r: Result<(), AppError>)
        ensures
            final(self).next_id == old(self).next_id,
            match position_of_id(playlist_views(old(self).playlists@), playlist_id) {
                Some(p) => r is Ok && exists|t: u64|
                    playlist_views(final(self).playlists@) == #[trigger] with_track_removed(
                        playlist_views(old(self).playlists@),
                        p,
                        track_id@,
                        t,
                    ),
                None => r matches Err(e) && is_playlist_not_found(e) && final(self).playlists@ == old(
                    self,
                ).playlists@,
            },
    {
        let now = now_millis() as u64;
        self.remove_track_at(playlist_id, track_id, now)
    }
}


// ===== laws =====

pub proof fn lemma_max_positive_id_bounds(ps: Seq<LocalPlaylistView>)
    ensures
        max_positive_id(ps) >= 0,
        forall|i: int| 0 <= i < ps.len() ==> (#[trigger] ps[i]).id <= max_positive_id(ps) || ps[i].id <= 0,
    decreases ps.len(),
{
    if ps.len() > 0 {
        lemma_max_positive_id_bounds(ps.drop_last());
        assert forall|i: int| 0 <= i < ps.len() implies (#[trigger] ps[i]).id <= max_positive_id(ps) || ps[i].id <= 0 by {
            if i < ps.len() - 1 {
                assert(ps[i] == ps.drop_last()[i]);
            }
        }
    }
}

/// Once the next id is raised above every positive id, a created playlist
/// gets a positive id that no playlist of the store has, and the creation
/// after it gets the id one above (as long as that fits in `i64`).
pub proof fn law_created_id_is_unused(ps: Seq<LocalPlaylistView>, next_id: i64, max: i64)
    requires
        max == max_positive_id(ps),
        max < i64::MAX,
    ensures
        forall|i: int| 0 <= i < ps.len() ==> (#[trigger] ps[i]).id != fresh_id(fixed_next_id(next_id, max)),
        fresh_id(fixed_next_id(next_id, max)) == fixed_next_id(next_id, max),
        fresh_id(fixed_next_id(next_id, max)) >= 1,
        fixed_next_id(next_id, max) < i64::MAX ==> fresh_id((fixed_next_id(next_id, max) + 1) as i64)
            == fixed_next_id(next_id, max) + 1,
{
    lemma_max_positive_id_bounds(ps);
}


proof fn lemma_unique_keeps_ids(ts: Seq<TrackView>, n: nat)
    requires
        n <= ts.len(),
    ensures
        forall|i: int| 0 <= i < n && ts[i].id.len() > 0 ==> has_track_id(unique_tracks_upto(ts, n), (#[trigger] ts[i]).id),
    decreases n,
{
    if n > 0 {
        lemma_unique_keeps_ids(ts, (n - 1) as nat);
        let prev = unique_tracks_upto(ts, (n - 1) as nat);
        let cur = unique_tracks_upto(ts, n);
        assert forall|i: int| 0 <= i < n && ts[i].id.len() > 0 implies has_track_id(cur, (#[trigger] ts[i]).id) by {
            if first_of_its_id(ts, n - 1) {
                assert(cur == prev.push(ts[n - 1]));
                if i < n - 1 {
                    let k = choose|k: int| 0 <= k < prev.len() && (#[trigger] prev[k]).id == ts[i].id;
                    assert(cur[k] == prev[k]);
                } else {
                    assert(cur[prev.len() as int] == ts[n - 1]);
                }
            } else if i < n - 1 {
                assert(cur == prev);
            } else {
                let j = choose|j: int| 0 <= j < n - 1 && (#[trigger] ts[j]).id == ts[n - 1].id;
                assert(has_track_id(prev, ts[j].id));
            }
        }
    }
}

proof fn lemma_unique_from(ts: Seq<TrackView>, n: nat)
    requires
        n <= ts.len(),
    ensures
        forall|k: int| 0 <= k < unique_tracks_upto(ts, n).len() ==> has_track_id(ts, (#[trigger] unique_tracks_upto(ts, n)[k]).id),
    decreases n,
{
    if n > 0 {
        lemma_unique_from(ts, (n - 1) as nat);
        let prev = unique_tracks_upto(ts, (n - 1) as nat);
        let cur = unique_tracks_upto(ts, n);
        assert forall|k: int| 0 <= k < cur.len() implies has_track_id(ts, (#[trigger] cur[k]).id) by {
            if k < prev.len() {
                assert(cur[k] == prev[k]);
            } else {
                assert(cur[k] == ts[n - 1]);
            }
        }
    }
}

proof fn lemma_without_track_has_none(ts: Seq<TrackView>, id: Seq<char>)
    ensures
        !has_track_id(without_track(ts, id), id),
        !has_track_id(ts, id) ==> without_track(ts, id) == ts,
    decreases ts.len(),
{
    if ts.len() > 0 {
        let q = ts.drop_last();
        lemma_without_track_has_none(q, id);
        let w = without_track(ts, id);
        let wq = without_track(q, id);
        if ts.last().id != id {
            assert(w == wq.push(ts.last()));
            assert forall|i: int| 0 <= i < w.len() implies (#[trigger] w[i]).id != id by {
                if i < wq.len() {
                    assert(w[i] == wq[i]);
                }
            }
        }
        if !has_track_id(ts, id) {
            assert(!has_track_id(q, id)) by {
                if has_track_id(q, id) {
                    let i = choose|i: int| 0 <= i < q.len() && (#[trigger] q[i]).id == id;
                    assert(ts[i] == q[i]);
                }
            }
            assert(ts.last() == ts[ts.len() - 1]);
            assert(ts =~= q.push(ts.last()));
        }
    }
}

/// A track added to a playlist is listed among its tracks afterwards (when
/// it has an id), and the playlists keep their ids, so the playlist is
/// found where it was.
pub proof fn law_added_track_is_listed(ps: Seq<LocalPlaylistView>, p: int, track: TrackView, now: u64)
    requires
        0 <= p < ps.len(),
        track.id.len() > 0,
    ensures
        has_track_id(unique_tracks_of(with_track(ps, p, track, now)[p].tracks), track.id),
        with_track(ps, p, track, now).len() == ps.len(),
        forall|k: int| 0 <= k < ps.len() ==> (#[trigger] with_track(ps, p, track, now)[k]).id == ps[k].id,
{
    let ts = with_track(ps, p, track, now)[p].tracks;
    if has_track_id(ps[p].tracks, track.id) {
        let i = choose|i: int| 0 <= i < ts.len() && (#[trigger] ts[i]).id == track.id;
        lemma_unique_keeps_ids(ts, ts.len());
        assert(has_track_id(unique_tracks_upto(ts, ts.len()), ts[i].id));
    } else {
        assert(ts[ts.len() - 1] == track);
        lemma_unique_keeps_ids(ts, ts.len());
        assert(has_track_id(unique_tracks_upto(ts, ts.len()), ts[ts.len() - 1].id));
    }
}

/// After the tracks with an id are removed from a playlist, none of its
/// tracks, stored or listed, has that id.
pub proof fn law_removed_track_is_gone(ps: Seq<LocalPlaylistView>, p: int, id: Seq<char>, now: u64)
    requires
        0 <= p < ps.len(),
    ensures
        !has_track_id(with_track_removed(ps, p, id, now)[p].tracks, id),
        !has_track_id(unique_tracks_of(with_track_removed(ps, p, id, now)[p].tracks), id),
{
    let ts = with_track_removed(ps, p, id, now)[p].tracks;
    lemma_without_track_has_none(ps[p].tracks, id);
    lemma_unique_from(ts, ts.len());
    let u = unique_tracks_of(ts);
    if has_track_id(u, id) {
        let k = choose|k: int| 0 <= k < u.len() && (#[trigger] u[k]).id == id;
        assert(has_track_id(ts, u[k].id));
    }
}

/// Removing a track that was just added to a playlist, where no track had
/// its id before, gives the playlist its tracks back.
pub proof fn law_remove_undoes_add(ps: Seq<LocalPlaylistView>, p: int, track: TrackView, added: u64, removed: u64)
    requires
        0 <= p < ps.len(),
        !has_track_id(ps[p].tracks, track.id),
    ensures
        with_track_removed(with_track(ps, p, track, added), p, track.id, removed)[p].tracks == ps[p].tracks,
{
    let ts = ps[p].tracks;
    let pushed = with_track(ps, p, track, added)[p].tracks;
    assert(pushed == ts.push(track));
    assert(pushed.drop_last() =~= ts);
    lemma_without_track_has_none(ts, track.id);
}

} // verus!
