use vstd::prelude::*;
use crate::order::{sorted_desc, stable_order_desc};
use crate::clock::now_millis;
use crate::sync::models::{
    PlaylistView, FavoriteView, SnapshotEntry, SyncSong, SyncPlaylist, SyncData, SyncFavoritePlaylist, SyncRecentPlay,
    SyncRecentPlayDeletion, SyncLogEntry, song_key, song_stable_key, clone_songs, deletion_key,
    favorite_key, default_version, spec_default_version,
};

verus! {

// ===== keys =====

/// Whether some string of `ks` has the characters `k`.
pub open spec fn has_str(ks: Seq<String>, k: Seq<char>) -> bool {
    exists|i: int| 0 <= i < ks.len() && #[trigger] ks[i]@ == k
}

/// Whether some song of `songs` has the stable key `k`.
pub open spec fn has_song_key(songs: Seq<SyncSong>, k: Seq<char>) -> bool {
    exists|i: int| 0 <= i < songs.len() && song_key(#[trigger] songs[i]) == k
}

/// Whether `k` is one of `ks`.
pub fn str_in(ks: &Vec<String>, k: &String) -> (r: bool)
    ensures
        r == has_str(ks@, k@),
{
    let mut i: usize = 0;
    while i < ks.len()
        invariant
            i <= ks.len(),
            forall|j: int| 0 <= j < i ==> ks@[j]@ != k@,
        decreases ks.len() - i,
    {
        if ks[i] == *k {
            return true;
        }
        i = i + 1;
    }
    false
}

/// The stable keys of `songs`, in order.
pub fn song_keys(songs: &Vec<SyncSong>) -> (r: Vec<String>)
    ensures
        r@.len() == songs@.len(),
        forall|i: int| 0 <= i < songs@.len() ==> (#[trigger] r@[i])@ == song_key(songs@[i]),
{
    let mut r: Vec<String> = Vec::new();
    let mut i: usize = 0;
    while i < songs.len()
        invariant
            i <= songs.len(),
            r@.len() == i,
            forall|j: int| 0 <= j < i ==> (#[trigger] r@[j])@ == song_key(songs@[j]),
        decreases songs.len() - i,
    {
        r.push(song_stable_key(&songs[i]));
        i = i + 1;
    }
    r
}

proof fn lemma_keys_has(songs: Seq<SyncSong>, ks: Seq<String>, k: Seq<char>)
    requires
        ks.len() == songs.len(),
        forall|i: int| 0 <= i < songs.len() ==> (#[trigger] ks[i])@ == song_key(songs[i]),
    ensures
        has_str(ks, k) == has_song_key(songs, k),
{
    if has_str(ks, k) {
        let i = choose|i: int| 0 <= i < ks.len() && #[trigger] ks[i]@ == k;
        assert(song_key(songs[i]) == k);
    }
    if has_song_key(songs, k) {
        let i = choose|i: int| 0 <= i < songs.len() && song_key(#[trigger] songs[i]) == k;
        assert(ks[i]@ == k);
    }
}

// ===== three-way song merge =====

/// `k` was in the last synchronised state and the local side no longer has it.
pub open spec fn locally_deleted(local: Seq<SyncSong>, base: Seq<String>, k: Seq<char>) -> bool {
    has_str(base, k) && !has_song_key(local, k)
}

/// `k` was in the last synchronised state and the remote side no longer has it.
pub open spec fn remotely_deleted(remote: Seq<SyncSong>, base: Seq<String>, k: Seq<char>) -> bool {
    has_str(base, k) && !has_song_key(remote, k)
}

/// The local songs that the remote side did not delete, in local order.
pub open spec fn kept_local(local: Seq<SyncSong>, remote: Seq<SyncSong>, base: Seq<String>) -> Seq<SyncSong> {
    local.filter(|s: SyncSong| !remotely_deleted(remote, base, song_key(s)))
}

/// The remote songs that the kept local songs lack and that the local side
/// did not delete, in remote order.
pub open spec fn added_remote(local: Seq<SyncSong>, remote: Seq<SyncSong>, base: Seq<String>) -> Seq<SyncSong> {
    let kept = kept_local(local, remote, base);
    remote.filter(|s: SyncSong| !has_song_key(kept, song_key(s)) && !locally_deleted(local, base, song_key(s)))
}

/// The merged song list: the kept local songs followed by the added remote
/// songs. A song of the last synchronised state that one side no longer has
/// is left out, even where the other side still has it; with no recorded
/// state the merge is additive.
pub open spec fn spec_merge_songs(local: Seq<SyncSong>, remote: Seq<SyncSong>, base: Seq<String>) -> Seq<SyncSong> {
    kept_local(local, remote, base) + added_remote(local, remote, base)
}

proof fn lemma_filter_all_songs(s: Seq<SyncSong>, p: spec_fn(SyncSong) -> bool)
    requires
        forall|x: SyncSong| #[trigger] p(x),
    ensures
        s.filter(p) == s,
    decreases s.len(),
{
    reveal_with_fuel(Seq::<_>::filter, 1);
    if s.len() > 0 {
        lemma_filter_all_songs(s.drop_last(), p);
        assert(s.drop_last().push(s.last()) =~= s);
    }
}

/// Three-way merge of two song lists against the keys of the last
/// synchronised state (`base_songs`).
pub fn merge_songs(local: &Vec<SyncSong>, remote: &Vec<SyncSong>, _last_sync_time: i64, base_songs: &Vec<String>) -> (r: Vec<SyncSong>)
    ensures
        r@ == spec_merge_songs(local@, remote@, base_songs@),
{
    if base_songs.len() == 0 && remote.len() == 0 && local.len() > 0 {
        proof {
            let p1 = |s: SyncSong| !remotely_deleted(remote@, base_songs@, song_key(s));
            lemma_filter_all_songs(local@, p1);
            assert(added_remote(local@, remote@, base_songs@) =~= Seq::<SyncSong>::empty());
            assert(spec_merge_songs(local@, remote@, base_songs@) =~= local@);
        }
        return clone_songs(local);
    }
    if base_songs.len() == 0 && local.len() == 0 && remote.len() > 0 {
        proof {
            let kept = kept_local(local@, remote@, base_songs@);
            assert(kept =~= Seq::<SyncSong>::empty());
            let p2 = |s: SyncSong| !has_song_key(kept, song_key(s)) && !locally_deleted(local@, base_songs@, song_key(s));
            lemma_filter_all_songs(remote@, p2);
            assert(spec_merge_songs(local@, remote@, base_songs@) =~= remote@);
        }
        return clone_songs(remote);
    }
    let local_keys = song_keys(local);
    let remote_keys = song_keys(remote);
    let ghost pred1 = |s: SyncSong| !remotely_deleted(remote@, base_songs@, song_key(s));
    let mut result: Vec<SyncSong> = Vec::new();
    let mut i: usize = 0;
    while i < local.len()
        invariant
            i <= local.len(),
            remote_keys@.len() == remote@.len(),
            forall|j: int| 0 <= j < remote@.len() ==> (#[trigger] remote_keys@[j])@ == song_key(remote@[j]),
            pred1 == (|s: SyncSong| !remotely_deleted(remote@, base_songs@, song_key(s))),
            result@ == local@.take(i as int).filter(pred1),
        decreases local.len() - i,
    {
        reveal_with_fuel(Seq::<_>::filter, 1);
        let key = song_stable_key(&local[i]);
        proof {
            lemma_keys_has(remote@, remote_keys@, key@);
        }
        let deleted_remotely = str_in(base_songs, &key) && !str_in(&remote_keys, &key);
        assert(local@.take(i + 1).drop_last() =~= local@.take(i as int));
        if !deleted_remotely {
            result.push(local[i].clone());
        }
        i = i + 1;
    }
    assert(local@.take(local@.len() as int) =~= local@);
    let ghost kept = result@;
    let result_keys = song_keys(&result);
    let ghost pred2 = |s: SyncSong| !has_song_key(kept, song_key(s)) && !locally_deleted(local@, base_songs@, song_key(s));
    let mut added: Vec<SyncSong> = Vec::new();
    let mut k: usize = 0;
    while k < remote.len()
        invariant
            k <= remote.len(),
            local_keys@.len() == local@.len(),
            forall|j: int| 0 <= j < local@.len() ==> (#[trigger] local_keys@[j])@ == song_key(local@[j]),
            result_keys@.len() == kept.len(),
            forall|j: int| 0 <= j < kept.len() ==> (#[trigger] result_keys@[j])@ == song_key(kept[j]),
            pred2 == (|s: SyncSong| !has_song_key(kept, song_key(s)) && !locally_deleted(local@, base_songs@, song_key(s))),
            added@ == remote@.take(k as int).filter(pred2),
        decreases remote.len() - k,
    {
        reveal_with_fuel(Seq::<_>::filter, 1);
        let key = song_stable_key(&remote[k]);
        proof {
            lemma_keys_has(local@, local_keys@, key@);
            lemma_keys_has(kept, result_keys@, key@);
        }
        let keep = !str_in(&result_keys, &key) && !(str_in(base_songs, &key) && !str_in(&local_keys, &key));
        assert(remote@.take(k + 1).drop_last() =~= remote@.take(k as int));
        if keep {
            added.push(remote[k].clone());
        }
        k = k + 1;
    }
    assert(remote@.take(remote@.len() as int) =~= remote@);
    result.append(&mut added);
    result
}


// ===== playlist merge =====

/// Copy of a list of strings.
pub fn clone_strings(v: &Vec<String>) -> (r: Vec<String>)
    ensures
        r@ == v@,
{
    let mut r: Vec<String> = Vec::new();
    let mut i: usize = 0;
    while i < v.len()
        invariant
            i <= v.len(),
            r@ == v@.take(i as int),
        decreases v.len() - i,
    {
        r.push(v[i].clone());
        i = i + 1;
        assert(r@ =~= v@.take(i as int));
    }
    assert(v@.take(v.len() as int) =~= v@);
    r
}

/// The song keys that the last synchronised state holds for playlist `id`:
/// those of the first entry for `id`, none when there is no entry.
pub open spec fn base_songs_for(base: Seq<SnapshotEntry>, id: Seq<char>) -> Seq<String>
    decreases base.len(),
{
    if base.len() == 0 {
        Seq::empty()
    } else if base[0].playlist_id@ == id {
        base[0].song_keys@
    } else {
        base_songs_for(base.drop_first(), id)
    }
}

/// `base_songs_for`.
pub fn snapshot_songs(base: &Vec<SnapshotEntry>, id: &String) -> (r: Vec<String>)
    ensures
        r@ == base_songs_for(base@, id@),
{
    let mut i: usize = 0;
    assert(base@.skip(0) =~= base@);
    while i < base.len()
        invariant
            i <= base.len(),
            base_songs_for(base@.skip(i as int), id@) == base_songs_for(base@, id@),
        decreases base.len() - i,
    {
        assert(base@.skip(i as int).drop_first() =~= base@.skip(i + 1));
        if base[i].playlist_id == *id {
            return clone_strings(&base[i].song_keys);
        }
        i = i + 1;
    }
    Vec::new()
}

/// The last playlist of `ps` with id `id`, as the original's id map keeps it.
pub open spec fn last_with_id(ps: Seq<SyncPlaylist>, id: Seq<char>) -> Option<PlaylistView>
    decreases ps.len(),
{
    if ps.len() == 0 {
        None
    } else if ps.last().id@ == id {
        Some(ps.last()@)
    } else {
        last_with_id(ps.drop_last(), id)
    }
}

/// The index of the last playlist with id `id`.
pub fn last_index_with_id(ps: &Vec<SyncPlaylist>, id: &String) -> (r: Option<usize>)
    ensures
        match r {
            Some(i) => i < ps@.len() && last_with_id(ps@, id@) == Some(ps@[i as int]@),
            None => last_with_id(ps@, id@) is None,
        },
{
    let mut i: usize = ps.len();
    assert(ps@.take(ps@.len() as int) =~= ps@);
    while i > 0
        invariant
            i <= ps.len(),
            last_with_id(ps@.take(i as int), id@) == last_with_id(ps@, id@),
        decreases i,
    {
        assert(ps@.take(i as int).drop_last() =~= ps@.take(i - 1));
        if ps[i - 1].id == *id {
            return Some(i - 1);
        }
        i = i - 1;
    }
    None
}

/// The merged name: the local one, unless only the remote side renamed the
/// playlist since the last synchronisation.
pub open spec fn merged_name(l: PlaylistView, r: PlaylistView, last_sync_time: i64) -> Seq<char> {
    if l.name == r.name {
        l.name
    } else if r.modified_at > last_sync_time && l.modified_at <= last_sync_time {
        r.name
    } else {
        l.name
    }
}

pub open spec fn min_i64(a: i64, b: i64) -> i64 {
    if a <= b { a } else { b }
}

pub open spec fn max_i64(a: i64, b: i64) -> i64 {
    if a >= b { a } else { b }
}

/// The merge of one playlist that both sides hold.
pub open spec fn spec_merge_single_playlist(l: PlaylistView, r: PlaylistView, last_sync_time: i64, base_songs: Seq<String>) -> PlaylistView {
    PlaylistView {
        id: l.id,
        name: merged_name(l, r, last_sync_time),
        songs: spec_merge_songs(l.songs, r.songs, base_songs),
        created_at: min_i64(l.created_at, r.created_at),
        modified_at: max_i64(l.modified_at, r.modified_at),
        is_deleted: false,
    }
}

/// Merges one playlist that both sides hold.
pub fn merge_single_playlist(local: &SyncPlaylist, remote: &SyncPlaylist, last_sync_time: i64, base_songs: &Vec<String>) -> (r: SyncPlaylist)
    ensures
        r@ == spec_merge_single_playlist(local@, remote@, last_sync_time, base_songs@),
{
    let name = if local.name == remote.name {
        local.name.clone()
    } else if remote.modified_at > last_sync_time && local.modified_at <= last_sync_time {
        remote.name.clone()
    } else {
        local.name.clone()
    };
    let songs = merge_songs(&local.songs, &remote.songs, last_sync_time, base_songs);
    SyncPlaylist {
        id: local.id.clone(),
        name,
        songs,
        created_at: if local.created_at <= remote.created_at { local.created_at } else { remote.created_at },
        modified_at: if local.modified_at >= remote.modified_at { local.modified_at } else { remote.modified_at },
        is_deleted: false,
    }
}

/// What the merge keeps of playlist `id`: a live playlist of one side alone,
/// the merge of two live playlists, nothing when either side deleted it.
pub open spec fn merged_for(local: Seq<SyncPlaylist>, remote: Seq<SyncPlaylist>, last_sync_time: i64, base: Seq<SnapshotEntry>, id: Seq<char>) -> Option<PlaylistView> {
    match (last_with_id(local, id), last_with_id(remote, id)) {
        (Some(l), None) => if !l.is_deleted { Some(l) } else { None },
        (None, Some(r)) => if !r.is_deleted { Some(r) } else { None },
        (Some(l), Some(r)) => if l.is_deleted || r.is_deleted {
            None
        } else {
            Some(spec_merge_single_playlist(l, r, last_sync_time, base_songs_for(base, id)))
        },
        (None, None) => None,
    }
}

/// Whether some playlist was modified after `t`.
pub open spec fn any_modified_after(ps: Seq<SyncPlaylist>, t: i64) -> bool {
    exists|i: int| 0 <= i < ps.len() && #[trigger] ps[i].modified_at > t
}

/// Whether some playlist of `ps` has id `id`.
pub open spec fn has_playlist_id(ps: Seq<SyncPlaylist>, id: Seq<char>) -> bool {
    exists|i: int| 0 <= i < ps.len() && (#[trigger] ps[i]).id@ == id
}

/// The order in which merged playlists come out: that of the side that
/// changed when only the remote side changed, else that of the local side;
/// the other side's playlists follow.
pub open spec fn merge_order(local: Seq<SyncPlaylist>, remote: Seq<SyncPlaylist>, last_sync_time: i64) -> Seq<SyncPlaylist> {
    if any_modified_after(remote, last_sync_time) && !any_modified_after(local, last_sync_time) {
        remote + local
    } else {
        local + remote
    }
}

/// The merged playlists for the first `n` playlists of `all`: each id once,
/// at its first place, when the merge keeps something of it.
pub open spec fn ordered_merge(all: Seq<SyncPlaylist>, local: Seq<SyncPlaylist>, remote: Seq<SyncPlaylist>, last_sync_time: i64, base: Seq<SnapshotEntry>, n: nat) -> Seq<PlaylistView>
    decreases n,
{
    if n == 0 {
        Seq::empty()
    } else {
        let prev = ordered_merge(all, local, remote, last_sync_time, base, (n - 1) as nat);
        let id = all[n - 1].id@;
        match merged_for(local, remote, last_sync_time, base, id) {
            Some(p) => if !has_playlist_id(all.take(n - 1), id) { prev.push(p) } else { prev },
            None => prev,
        }
    }
}

/// The result of merging the two playlist lists.
pub open spec fn spec_merge_playlists(local: Seq<SyncPlaylist>, remote: Seq<SyncPlaylist>, last_sync_time: i64, base: Seq<SnapshotEntry>) -> Seq<PlaylistView> {
    let all = merge_order(local, remote, last_sync_time);
    ordered_merge(all, local, remote, last_sync_time, base, all.len())
}

/// Whether some playlist was modified after `t`.
pub fn any_playlist_modified_after(ps: &Vec<SyncPlaylist>, t: i64) -> (r: bool)
    ensures
        r == any_modified_after(ps@, t),
{
    let mut i: usize = 0;
    while i < ps.len()
        invariant
            i <= ps.len(),
            forall|j: int| 0 <= j < i ==> ps@[j].modified_at <= t,
        decreases ps.len() - i,
    {
        if ps[i].modified_at > t {
            return true;
        }
        i = i + 1;
    }
    false
}

/// `merged_for` for one id.
fn merge_one_id(local: &Vec<SyncPlaylist>, remote: &Vec<SyncPlaylist>, last_sync_time: i64, base: &Vec<SnapshotEntry>, id: &String) -> (r: Option<SyncPlaylist>)
    ensures
        match r {
            Some(p) => merged_for(local@, remote@, last_sync_time, base@, id@) == Some(p@),
            None => merged_for(local@, remote@, last_sync_time, base@, id@) is None,
        },
{
    match (last_index_with_id(local, id), last_index_with_id(remote, id)) {
        (Some(li), None) => if !local[li].is_deleted { Some(local[li].clone()) } else { None },
        (None, Some(ri)) => if !remote[ri].is_deleted { Some(remote[ri].clone()) } else { None },
        (Some(li), Some(ri)) => {
            if local[li].is_deleted || remote[ri].is_deleted {
                None
            } else {
                let base_songs = snapshot_songs(base, id);
                Some(merge_single_playlist(&local[li], &remote[ri], last_sync_time, &base_songs))
            }
        },
        (None, None) => None,
    }
}

/// Appends to `ordered` the merged playlists for `ps`, the part of `all`
/// from `off` on, skipping the ids that `seen` already holds.
fn merge_in_order(
    ps: &Vec<SyncPlaylist>,
    local: &Vec<SyncPlaylist>,
    remote: &Vec<SyncPlaylist>,
    last_sync_time: i64,
    base_snapshot: &Vec<SnapshotEntry>,
    ordered: &mut Vec<SyncPlaylist>,
    seen: &mut Vec<String>,
    Ghost(all): Ghost<Seq<SyncPlaylist>>,
    Ghost(off): Ghost<nat>,
)
    requires
        off + ps@.len() <= all.len(),
        ps@ == all.subrange(off as int, (off + ps@.len()) as int),
        old(seen)@.len() == off,
        forall|j: int| 0 <= j < off ==> (#[trigger] old(seen)@[j])@ == all[j].id@,
        old(ordered)@.len() == ordered_merge(all, local@, remote@, last_sync_time, base_snapshot@, off).len(),
        forall|j: int| 0 <= j < old(ordered)@.len() ==> (#[trigger] old(ordered)@[j])@ == ordered_merge(all, local@, remote@, last_sync_time, base_snapshot@, off)[j],
    ensures
        final(seen)@.len() == off + ps@.len(),
        forall|j: int| 0 <= j < off + ps@.len() ==> (#[trigger] final(seen)@[j])@ == all[j].id@,
        final(ordered)@.len() == ordered_merge(all, local@, remote@, last_sync_time, base_snapshot@, off + ps@.len()).len(),
        forall|j: int| 0 <= j < final(ordered)@.len() ==> (#[trigger] final(ordered)@[j])@ == ordered_merge(all, local@, remote@, last_sync_time, base_snapshot@, off + ps@.len())[j],
{
    let mut k: usize = 0;
    while k < ps.len()
        invariant
            k <= ps@.len(),
            off + ps@.len() <= all.len(),
            ps@ == all.subrange(off as int, (off + ps@.len()) as int),
            seen@.len() == off + k,
            forall|j: int| 0 <= j < off + k ==> (#[trigger] seen@[j])@ == all[j].id@,
            ordered@.len() == ordered_merge(all, local@, remote@, last_sync_time, base_snapshot@, (off + k) as nat).len(),
            forall|j: int| 0 <= j < ordered@.len() ==> (#[trigger] ordered@[j])@ == ordered_merge(all, local@, remote@, last_sync_time, base_snapshot@, (off + k) as nat)[j],
        decreases ps@.len() - k,
    {
        let p: &SyncPlaylist = &ps[k];
        let ghost n: int = off + k;
        assert(*p == all[n]);
        let already = str_in(seen, &p.id);
        proof {
            assert(all.take(n).len() == n);
            if has_str(seen@, p.id@) {
                let j = choose|j: int| 0 <= j < seen@.len() && #[trigger] seen@[j]@ == p.id@;
                assert(all.take(n)[j].id@ == p.id@);
            }
            if has_playlist_id(all.take(n), p.id@) {
                let j = choose|j: int| 0 <= j < all.take(n).len() && (#[trigger] all.take(n)[j]).id@ == p.id@;
                assert(seen@[j]@ == p.id@);
            }
        }
        if !already {
            match merge_one_id(local, remote, last_sync_time, base_snapshot, &p.id) {
                Some(m) => {
                    ordered.push(m);
                },
                None => {},
            }
        }
        seen.push(p.id.clone());
        k = k + 1;
    }
}

/// Merges the playlists of both sides.
pub fn merge_playlists(local: &Vec<SyncPlaylist>, remote: &Vec<SyncPlaylist>, last_sync_time: i64, base_snapshot: &Vec<SnapshotEntry>) -> (r: Vec<SyncPlaylist>)
    ensures
        r@.len() == spec_merge_playlists(local@, remote@, last_sync_time, base_snapshot@).len(),
        forall|i: int| 0 <= i < r@.len() ==> (#[trigger] r@[i])@ == spec_merge_playlists(local@, remote@, last_sync_time, base_snapshot@)[i],
{
    let local_modified = any_playlist_modified_after(local, last_sync_time);
    let remote_modified = any_playlist_modified_after(remote, last_sync_time);
    let (primary, secondary) = if remote_modified && !local_modified { (remote, local) } else { (local, remote) };
    let ghost all = primary@ + secondary@;
    assert(all == merge_order(local@, remote@, last_sync_time));
    let mut ordered: Vec<SyncPlaylist> = Vec::new();
    let mut seen: Vec<String> = Vec::new();
    assert(primary@ == all.subrange(0, primary@.len() as int));
    merge_in_order(primary, local, remote, last_sync_time, base_snapshot, &mut ordered, &mut seen, Ghost(all), Ghost(0));
    assert(secondary@ == all.subrange(primary@.len() as int, (primary@.len() + secondary@.len()) as int));
    merge_in_order(secondary, local, remote, last_sync_time, base_snapshot, &mut ordered, &mut seen, Ghost(all), Ghost(primary@.len()));
    ordered
}

// ===== ordering helpers =====

/// `items` in the order that `order` gives by index.
pub open spec fn reorder<T>(items: Seq<T>, order: Seq<int>) -> Seq<T> {
    Seq::new(order.len(), |i: int| items[order[i]])
}

/// `s` cut to at most `n` items.
pub open spec fn truncated<T>(s: Seq<T>, n: nat) -> Seq<T> {
    if s.len() > n { s.take(n as int) } else { s }
}

/// The first index of `k` in `ks`.
pub fn str_index(ks: &Vec<String>, k: &String) -> (r: Option<usize>)
    ensures
        match r {
            Some(i) => i < ks@.len() && ks@[i as int]@ == k@ && forall|j: int| 0 <= j < i ==> ks@[j]@ != k@,
            None => forall|j: int| 0 <= j < ks@.len() ==> ks@[j]@ != k@,
        },
{
    let mut i: usize = 0;
    while i < ks.len()
        invariant
            i <= ks.len(),
            forall|j: int| 0 <= j < i ==> ks@[j]@ != k@,
        decreases ks.len() - i,
    {
        if ks[i] == *k {
            return Some(i);
        }
        i = i + 1;
    }
    None
}

// ===== favourite playlists =====

/// `id_source` of a favourite playlist.
pub open spec fn favorite_view_key(f: FavoriteView) -> Seq<char> {
    f.id + seq!['_'] + f.source
}

/// The merge of two versions of one favourite playlist: the more recently
/// modified one, with the later times, the larger track count, the other's
/// songs that it lacks (unless it is deleted) and the other's sort order
/// when its own is 0. When both are deleted only the times are merged.
pub open spec fn spec_merge_single_favorite(a: FavoriteView, b: FavoriteView) -> FavoriteView {
    let (newer, older) = if a.modified_at >= b.modified_at { (a, b) } else { (b, a) };
    if newer.is_deleted && older.is_deleted {
        FavoriteView {
            added_time: max_i64(newer.added_time, older.added_time),
            modified_at: max_i64(newer.modified_at, older.modified_at),
            ..newer
        }
    } else {
        FavoriteView {
            added_time: max_i64(newer.added_time, older.added_time),
            modified_at: max_i64(newer.modified_at, older.modified_at),
            track_count: if newer.track_count >= older.track_count { newer.track_count } else { older.track_count },
            songs: if !newer.is_deleted {
                newer.songs + older.songs.filter(|s: SyncSong| !has_song_key(newer.songs, song_key(s)))
            } else {
                newer.songs
            },
            sort_order: if newer.sort_order == 0 { older.sort_order } else { newer.sort_order },
            ..newer
        }
    }
}

/// Merges two versions of one favourite playlist.
pub fn merge_single_favorite(a: &SyncFavoritePlaylist, b: &SyncFavoritePlaylist) -> (r: SyncFavoritePlaylist)
    ensures
        r@ == spec_merge_single_favorite(a@, b@),
{
    let (newer, older) = if a.modified_at >= b.modified_at { (a, b) } else { (b, a) };
    if newer.is_deleted && older.is_deleted {
        let mut result = newer.clone();
        result.added_time = if newer.added_time >= older.added_time { newer.added_time } else { older.added_time };
        result.modified_at = if newer.modified_at >= older.modified_at { newer.modified_at } else { older.modified_at };
        return result;
    }
    let mut result = newer.clone();
    result.added_time = if newer.added_time >= older.added_time { newer.added_time } else { older.added_time };
    result.modified_at = if newer.modified_at >= older.modified_at { newer.modified_at } else { older.modified_at };
    result.track_count = if newer.track_count >= older.track_count { newer.track_count } else { older.track_count };
    if !result.is_deleted {
        let existing_keys = song_keys(&result.songs);
        let ghost base = result.songs@;
        let ghost pred = |s: SyncSong| !has_song_key(newer.songs@, song_key(s));
        let mut extra: Vec<SyncSong> = Vec::new();
        let mut k: usize = 0;
        while k < older.songs.len()
            invariant
                k <= older.songs@.len(),
                base == newer.songs@,
                existing_keys@.len() == base.len(),
                forall|j: int| 0 <= j < base.len() ==> (#[trigger] existing_keys@[j])@ == song_key(base[j]),
                pred == (|s: SyncSong| !has_song_key(newer.songs@, song_key(s))),
                extra@ == older.songs@.take(k as int).filter(pred),
            decreases older.songs@.len() - k,
        {
            reveal_with_fuel(Seq::<_>::filter, 1);
            let key = song_stable_key(&older.songs[k]);
            proof {
                lemma_keys_has(base, existing_keys@, key@);
            }
            assert(older.songs@.take(k + 1).drop_last() =~= older.songs@.take(k as int));
            if !str_in(&existing_keys, &key) {
                extra.push(older.songs[k].clone());
            }
            k = k + 1;
        }
        assert(older.songs@.take(older.songs@.len() as int) =~= older.songs@);
        result.songs.append(&mut extra);
    }
    if result.sort_order == 0 {
        result.sort_order = older.sort_order;
    }
    result
}

/// The first index of a group with key `k`.
pub open spec fn favorite_group_index(gs: Seq<FavoriteView>, k: Seq<char>) -> Option<int>
    decreases gs.len(),
{
    if gs.len() == 0 {
        None
    } else if favorite_view_key(gs[0]) == k {
        Some(0)
    } else {
        match favorite_group_index(gs.drop_first(), k) {
            Some(i) => Some(i + 1),
            None => None,
        }
    }
}

/// The groups that the first `n` favourite playlists of `all` form: one per
/// key, at the place where the key first occurs, each the merge of its
/// members in order.
pub open spec fn favorite_groups(all: Seq<FavoriteView>, n: nat) -> Seq<FavoriteView>
    decreases n,
{
    if n == 0 {
        Seq::empty()
    } else {
        let prev = favorite_groups(all, (n - 1) as nat);
        let f = all[n - 1];
        match favorite_group_index(prev, favorite_view_key(f)) {
            Some(g) => prev.update(g, spec_merge_single_favorite(prev[g], f)),
            None => prev.push(f),
        }
    }
}

/// The views of a list of favourite playlists.
pub open spec fn favorite_views(fs: Seq<SyncFavoritePlaylist>) -> Seq<FavoriteView> {
    fs.map_values(|f: SyncFavoritePlaylist| f@)
}

/// The added times of the groups.
pub open spec fn added_times(gs: Seq<FavoriteView>) -> Seq<i64> {
    gs.map_values(|f: FavoriteView| f.added_time)
}

/// Merged favourite playlists: the groups of `local` then `remote`, most
/// recently added first, groups added at the same time in order of first
/// occurrence.
pub open spec fn spec_merge_favorite_playlists(local: Seq<SyncFavoritePlaylist>, remote: Seq<SyncFavoritePlaylist>) -> Seq<FavoriteView> {
    let all = favorite_views(local + remote);
    let groups = favorite_groups(all, all.len());
    reorder(groups, sorted_desc(added_times(groups), groups.len()))
}

proof fn lemma_favorite_group_index(gs: Seq<FavoriteView>, k: Seq<char>, i: int)
    requires
        0 <= i <= gs.len(),
        forall|j: int| 0 <= j < i ==> favorite_view_key(gs[j]) != k,
        i < gs.len() ==> favorite_view_key(gs[i]) == k,
    ensures
        favorite_group_index(gs, k) == (if i < gs.len() { Some(i) } else { None::<int> }),
    decreases gs.len(),
{
    if gs.len() > 0 && i > 0 {
        lemma_favorite_group_index(gs.drop_first(), k, i - 1);
    }
}

/// Merges the favourite playlists of both sides.
pub fn merge_favorite_playlists(local: &Vec<SyncFavoritePlaylist>, remote: &Vec<SyncFavoritePlaylist>, _last_sync_time: i64) -> (r: Vec<SyncFavoritePlaylist>)
    ensures
        favorite_views(r@) == spec_merge_favorite_playlists(local@, remote@),
{
    let ghost all = favorite_views(local@ + remote@);
    let mut groups: Vec<SyncFavoritePlaylist> = Vec::new();
    let mut keys: Vec<String> = Vec::new();
    let ghost mut n: nat = 0;
    let mut side: usize = 0;
    while side < 2
        invariant
            side <= 2,
            all == favorite_views(local@ + remote@),
            n == if side == 0 { 0 } else if side == 1 { local@.len() } else { local@.len() + remote@.len() },
            keys@.len() == groups@.len(),
            forall|j: int| 0 <= j < groups@.len() ==> (#[trigger] keys@[j])@ == favorite_key(groups@[j]),
            favorite_views(groups@) == favorite_groups(all, n),
        decreases 2 - side,
    {
        let list = if side == 0 { local } else { remote };
        let ghost off: nat = n;
        let mut k: usize = 0;
        while k < list.len()
            invariant
                k <= list@.len(),
                all == favorite_views(local@ + remote@),
                off + list@.len() <= all.len(),
                forall|j: int| 0 <= j < list@.len() ==> all[off + j] == (#[trigger] list@[j])@,
                n == off + k,
                keys@.len() == groups@.len(),
                forall|j: int| 0 <= j < groups@.len() ==> (#[trigger] keys@[j])@ == favorite_key(groups@[j]),
                favorite_views(groups@) == favorite_groups(all, n),
            decreases list@.len() - k,
        {
            let fp = &list[k];
            let key = fp.group_key();
            let ghost prev = favorite_views(groups@);
            assert(all[n as int] == fp@);
            match str_index(&keys, &key) {
                Some(g) => {
                    proof {
                        assert forall|j: int| 0 <= j < g implies favorite_view_key(prev[j]) != key@ by {
                            assert(keys@[j]@ == favorite_key(groups@[j]));
                        }
                        assert(favorite_view_key(prev[g as int]) == keys@[g as int]@);
                        lemma_favorite_group_index(prev, key@, g as int);
                    }
                    let merged = merge_single_favorite(&groups[g], fp);
                    groups.set(g, merged);
                    proof {
                        assert(favorite_views(groups@) =~= prev.update(g as int, spec_merge_single_favorite(prev[g as int], fp@)));
                        assert(spec_merge_single_favorite(prev[g as int], fp@).id == prev[g as int].id
                            || spec_merge_single_favorite(prev[g as int], fp@).id == fp@.id);
                        assert(favorite_key(groups@[g as int]) == key@);
                    }
                },
                None => {
                    proof {
                        assert forall|j: int| 0 <= j < prev.len() implies favorite_view_key(prev[j]) != key@ by {
                            assert(keys@[j]@ == favorite_key(groups@[j]));
                        }
                        lemma_favorite_group_index(prev, key@, prev.len() as int);
                    }
                    groups.push(fp.clone());
                    keys.push(key);
                    assert(favorite_views(groups@) =~= prev.push(fp@));
                },
            }
            proof {
                n = n + 1;
            }
            k = k + 1;
        }
        side = side + 1;
    }
    assert(n == all.len());
    let mut times: Vec<i64> = Vec::new();
    let mut i: usize = 0;
    while i < groups.len()
        invariant
            i <= groups@.len(),
            times@ == added_times(favorite_views(groups@)).take(i as int),
        decreases groups@.len() - i,
    {
        times.push(groups[i].added_time);
        i = i + 1;
        assert(times@ =~= added_times(favorite_views(groups@)).take(i as int));
    }
    assert(times@ =~= added_times(favorite_views(groups@)));
    let order = stable_order_desc(&times);
    let mut result: Vec<SyncFavoritePlaylist> = Vec::new();
    let mut m: usize = 0;
    while m < order.len()
        invariant
            m <= order@.len(),
            order@.len() == times@.len() == groups@.len(),
            sorted_desc(times@, times@.len()).len() == times@.len(),
            forall|k: int| 0 <= k < order@.len() ==> #[trigger] order@[k] < times@.len(),
            forall|k: int| 0 <= k < order@.len() ==> order@[k] as int == sorted_desc(times@, times@.len())[k],
            favorite_views(result@) == reorder(favorite_views(groups@), sorted_desc(times@, times@.len())).take(m as int),
        decreases order@.len() - m,
    {
        let ghost sd = sorted_desc(times@, times@.len());
        let ghost views = favorite_views(groups@);
        let ghost prev = favorite_views(result@);
        result.push(groups[order[m]].clone());
        assert(reorder(views, sd)[m as int] == views[sd[m as int]]);
        assert(favorite_views(result@) =~= prev.push(views[sd[m as int]]));
        m = m + 1;
        assert(favorite_views(result@) =~= reorder(favorite_views(groups@), sorted_desc(times@, times@.len())).take(m as int));
    }
    assert(favorite_views(result@) =~= reorder(favorite_views(groups@), sorted_desc(times@, times@.len())));
    result
}

// ===== deletions of recent plays =====

/// Most deletion records kept.
pub const MAX_DELETIONS: usize = 500;
/// Most recent plays kept.
pub const MAX_RECENT_PLAYS: usize = 500;
/// Most log entries kept.
pub const MAX_SYNC_LOG: usize = 100;

/// The first index of a deletion record with key `k`.
pub open spec fn deletion_group_index(gs: Seq<SyncRecentPlayDeletion>, k: Seq<char>) -> Option<int>
    decreases gs.len(),
{
    if gs.len() == 0 {
        None
    } else if deletion_key(gs[0]) == k {
        Some(0)
    } else {
        match deletion_group_index(gs.drop_first(), k) {
            Some(i) => Some(i + 1),
            None => None,
        }
    }
}

proof fn lemma_deletion_group_index(gs: Seq<SyncRecentPlayDeletion>, k: Seq<char>, i: int)
    requires
        0 <= i <= gs.len(),
        forall|j: int| 0 <= j < i ==> deletion_key(gs[j]) != k,
        i < gs.len() ==> deletion_key(gs[i]) == k,
    ensures
        deletion_group_index(gs, k) == (if i < gs.len() { Some(i) } else { None::<int> }),
    decreases gs.len(),
{
    if gs.len() > 0 && i > 0 {
        lemma_deletion_group_index(gs.drop_first(), k, i - 1);
    }
}

/// One record per key for the first `n` records of `all`, at the key's first
/// place: the first record with the latest deletion time.
pub open spec fn deletion_groups(all: Seq<SyncRecentPlayDeletion>, n: nat) -> Seq<SyncRecentPlayDeletion>
    decreases n,
{
    if n == 0 {
        Seq::empty()
    } else {
        let prev = deletion_groups(all, (n - 1) as nat);
        let d = all[n - 1];
        match deletion_group_index(prev, deletion_key(d)) {
            Some(g) => if d.deleted_at > prev[g].deleted_at { prev.update(g, d) } else { prev },
            None => prev.push(d),
        }
    }
}

pub open spec fn deletion_times(ds: Seq<SyncRecentPlayDeletion>) -> Seq<i64> {
    ds.map_values(|d: SyncRecentPlayDeletion| d.deleted_at)
}

/// Merged deletion records: one per song, latest deletion first, at most
/// `MAX_DELETIONS`.
pub open spec fn spec_merge_recent_play_deletions(local: Seq<SyncRecentPlayDeletion>, remote: Seq<SyncRecentPlayDeletion>) -> Seq<SyncRecentPlayDeletion> {
    let all = local + remote;
    let groups = deletion_groups(all, all.len());
    truncated(reorder(groups, sorted_desc(deletion_times(groups), groups.len())), MAX_DELETIONS as nat)
}

/// The deletion keys of `ds`.
fn deletion_keys(ds: &Vec<SyncRecentPlayDeletion>) -> (r: Vec<String>)
    ensures
        r@.len() == ds@.len(),
        forall|i: int| 0 <= i < ds@.len() ==> (#[trigger] r@[i])@ == deletion_key(ds@[i]),
{
    let mut r: Vec<String> = Vec::new();
    let mut i: usize = 0;
    while i < ds.len()
        invariant
            i <= ds.len(),
            r@.len() == i,
            forall|j: int| 0 <= j < i ==> (#[trigger] r@[j])@ == deletion_key(ds@[j]),
        decreases ds.len() - i,
    {
        r.push(ds[i].identity().stable_key());
        i = i + 1;
    }
    r
}

/// Merges the deletion records of both sides.
pub fn merge_recent_play_deletions(local: &Vec<SyncRecentPlayDeletion>, remote: &Vec<SyncRecentPlayDeletion>) -> (r: Vec<SyncRecentPlayDeletion>)
    ensures
        r@ == spec_merge_recent_play_deletions(local@, remote@),
{
    let ghost all = local@ + remote@;
    let mut groups: Vec<SyncRecentPlayDeletion> = Vec::new();
    let mut keys: Vec<String> = Vec::new();
    let ghost mut n: nat = 0;
    let mut side: usize = 0;
    while side < 2
        invariant
            side <= 2,
            all == local@ + remote@,
            n == if side == 0 { 0 } else if side == 1 { local@.len() } else { local@.len() + remote@.len() },
            keys@.len() == groups@.len(),
            forall|j: int| 0 <= j < groups@.len() ==> (#[trigger] keys@[j])@ == deletion_key(groups@[j]),
            groups@ == deletion_groups(all, n),
        decreases 2 - side,
    {
        let list = if side == 0 { local } else { remote };
        let ghost off: nat = n;
        let mut k: usize = 0;
        while k < list.len()
            invariant
                k <= list@.len(),
                all == local@ + remote@,
                off + list@.len() <= all.len(),
                forall|j: int| 0 <= j < list@.len() ==> all[off + j] == #[trigger] list@[j],
                n == off + k,
                keys@.len() == groups@.len(),
                forall|j: int| 0 <= j < groups@.len() ==> (#[trigger] keys@[j])@ == deletion_key(groups@[j]),
                groups@ == deletion_groups(all, n),
            decreases list@.len() - k,
        {
            let d = &list[k];
            let key = d.identity().stable_key();
            let ghost prev = groups@;
            assert(all[n as int] == *d);
            match str_index(&keys, &key) {
                Some(g) => {
                    proof {
                        assert forall|j: int| 0 <= j < g implies deletion_key(prev[j]) != key@ by {
                            assert(keys@[j]@ == deletion_key(groups@[j]));
                        }
                        lemma_deletion_group_index(prev, key@, g as int);
                    }
                    if d.deleted_at > groups[g].deleted_at {
                        groups.set(g, d.clone());
                    }
                },
                None => {
                    proof {
                        assert forall|j: int| 0 <= j < prev.len() implies deletion_key(prev[j]) != key@ by {
                            assert(keys@[j]@ == deletion_key(groups@[j]));
                        }
                        lemma_deletion_group_index(prev, key@, prev.len() as int);
                    }
                    groups.push(d.clone());
                    keys.push(key);
                },
            }
            proof {
                n = n + 1;
            }
            k = k + 1;
        }
        side = side + 1;
    }
    let mut times: Vec<i64> = Vec::new();
    let mut i: usize = 0;
    while i < groups.len()
        invariant
            i <= groups@.len(),
            times@ == deletion_times(groups@).take(i as int),
        decreases groups@.len() - i,
    {
        times.push(groups[i].deleted_at);
        i = i + 1;
        assert(times@ =~= deletion_times(groups@).take(i as int));
    }
    assert(times@ =~= deletion_times(groups@));
    let order = stable_order_desc(&times);
    let ghost sd = sorted_desc(times@, times@.len());
    let ghost full = reorder(groups@, sd);
    let mut result: Vec<SyncRecentPlayDeletion> = Vec::new();
    let mut m: usize = 0;
    while m < order.len() && m < MAX_DELETIONS
        invariant
            m <= order@.len(),
            m <= MAX_DELETIONS,
            order@.len() == times@.len() == groups@.len(),
            sd.len() == times@.len(),
            full == reorder(groups@, sd),
            forall|k: int| 0 <= k < order@.len() ==> #[trigger] order@[k] < times@.len(),
            forall|k: int| 0 <= k < order@.len() ==> order@[k] as int == sd[k],
            result@ == full.take(m as int),
        decreases order@.len() - m,
    {
        result.push(groups[order[m]].clone());
        m = m + 1;
        assert(result@ =~= full.take(m as int));
    }
    assert(full.len() == order@.len());
    if m == order.len() {
        assert(full.take(m as int) =~= full);
        assert(full.len() <= MAX_DELETIONS);
        assert(truncated(full, MAX_DELETIONS as nat) == full);
    } else {
        assert(m == MAX_DELETIONS);
        assert(full.len() > MAX_DELETIONS);
        assert(truncated(full, MAX_DELETIONS as nat) == full.take(MAX_DELETIONS as int));
    }
    result
}

// ===== recent plays =====

/// The deletion time of the last record for key `k`.
pub open spec fn last_deletion_time(ds: Seq<SyncRecentPlayDeletion>, k: Seq<char>) -> Option<i64>
    decreases ds.len(),
{
    if ds.len() == 0 {
        None
    } else if deletion_key(ds.last()) == k {
        Some(ds.last().deleted_at)
    } else {
        last_deletion_time(ds.drop_last(), k)
    }
}

/// Whether some play of `ps` is of a song with key `k`.
pub open spec fn has_play_key(ps: Seq<SyncRecentPlay>, k: Seq<char>) -> bool {
    exists|i: int| 0 <= i < ps.len() && song_key((#[trigger] ps[i]).song) == k
}

/// The plays of the first `n` plays of `ps` that no later deletion removed,
/// each song once, at its first place.
pub open spec fn kept_plays(ps: Seq<SyncRecentPlay>, ds: Seq<SyncRecentPlayDeletion>, n: nat) -> Seq<SyncRecentPlay>
    decreases n,
{
    if n == 0 {
        Seq::empty()
    } else {
        let prev = kept_plays(ps, ds, (n - 1) as nat);
        let rp = ps[n - 1];
        let k = song_key(rp.song);
        if (last_deletion_time(ds, k) matches Some(t) && t > rp.played_at) {
            prev
        } else if has_play_key(prev, k) {
            prev
        } else {
            prev.push(rp)
        }
    }
}

pub open spec fn play_times(ps: Seq<SyncRecentPlay>) -> Seq<i64> {
    ps.map_values(|p: SyncRecentPlay| p.played_at)
}

/// Merged recent plays: both sides' plays, latest first, without those that
/// a later deletion removed, each song once, at most `MAX_RECENT_PLAYS`.
pub open spec fn spec_merge_recent_plays(local: Seq<SyncRecentPlay>, remote: Seq<SyncRecentPlay>, deletions: Seq<SyncRecentPlayDeletion>) -> Seq<SyncRecentPlay> {
    let all = local + remote;
    let sorted = reorder(all, sorted_desc(play_times(all), all.len()));
    truncated(kept_plays(sorted, deletions, sorted.len()), MAX_RECENT_PLAYS as nat)
}

/// `last_deletion_time`.
fn find_deletion_time(ds: &Vec<SyncRecentPlayDeletion>, keys: &Vec<String>, k: &String) -> (r: Option<i64>)
    requires
        keys@.len() == ds@.len(),
        forall|i: int| 0 <= i < ds@.len() ==> (#[trigger] keys@[i])@ == deletion_key(ds@[i]),
    ensures
        r == last_deletion_time(ds@, k@),
{
    let mut i: usize = ds.len();
    assert(ds@.take(ds@.len() as int) =~= ds@);
    while i > 0
        invariant
            i <= ds@.len(),
            keys@.len() == ds@.len(),
            forall|j: int| 0 <= j < ds@.len() ==> (#[trigger] keys@[j])@ == deletion_key(ds@[j]),
            last_deletion_time(ds@.take(i as int), k@) == last_deletion_time(ds@, k@),
        decreases i,
    {
        assert(ds@.take(i as int).drop_last() =~= ds@.take(i - 1));
        if keys[i - 1] == *k {
            return Some(ds[i - 1].deleted_at);
        }
        i = i - 1;
    }
    None
}

/// Merges the recent plays of both sides against the merged deletions.
pub fn merge_recent_plays(local: &Vec<SyncRecentPlay>, remote: &Vec<SyncRecentPlay>, deletions: &Vec<SyncRecentPlayDeletion>) -> (r: Vec<SyncRecentPlay>)
    ensures
        r@ == spec_merge_recent_plays(local@, remote@, deletions@),
{
    let del_keys = deletion_keys(deletions);
    let mut all: Vec<SyncRecentPlay> = Vec::new();
    let mut i: usize = 0;
    while i < local.len()
        invariant
            i <= local@.len(),
            all@ == local@.take(i as int),
        decreases local@.len() - i,
    {
        all.push(local[i].clone());
        i = i + 1;
        assert(all@ =~= local@.take(i as int));
    }
    let mut j: usize = 0;
    while j < remote.len()
        invariant
            j <= remote@.len(),
            all@ == local@ + remote@.take(j as int),
        decreases remote@.len() - j,
    {
        all.push(remote[j].clone());
        j = j + 1;
        assert(all@ =~= local@ + remote@.take(j as int));
    }
    assert(local@.take(local@.len() as int) =~= local@);
    assert(all@ =~= local@ + remote@);
    let mut times: Vec<i64> = Vec::new();
    let mut t: usize = 0;
    while t < all.len()
        invariant
            t <= all@.len(),
            times@ == play_times(all@).take(t as int),
        decreases all@.len() - t,
    {
        times.push(all[t].played_at);
        t = t + 1;
        assert(times@ =~= play_times(all@).take(t as int));
    }
    assert(times@ =~= play_times(all@));
    let order = stable_order_desc(&times);
    let ghost sorted = reorder(all@, sorted_desc(times@, times@.len()));
    let mut result: Vec<SyncRecentPlay> = Vec::new();
    let mut seen: Vec<String> = Vec::new();
    let mut m: usize = 0;
    while m < order.len()
        invariant
            m <= order@.len(),
            order@.len() == times@.len() == all@.len(),
            sorted_desc(times@, times@.len()).len() == times@.len(),
            sorted == reorder(all@, sorted_desc(times@, times@.len())),
            forall|k: int| 0 <= k < order@.len() ==> #[trigger] order@[k] < times@.len(),
            forall|k: int| 0 <= k < order@.len() ==> order@[k] as int == sorted_desc(times@, times@.len())[k],
            del_keys@.len() == deletions@.len(),
            forall|k: int| 0 <= k < deletions@.len() ==> (#[trigger] del_keys@[k])@ == deletion_key(deletions@[k]),
            seen@.len() == result@.len(),
            forall|k: int| 0 <= k < result@.len() ==> (#[trigger] seen@[k])@ == song_key(result@[k].song),
            result@ == kept_plays(sorted, deletions@, m as nat),
        decreases order@.len() - m,
    {
        let rp = &all[order[m]];
        assert(*rp == sorted[m as int]);
        let key = song_stable_key(&rp.song);
        let del = find_deletion_time(deletions, &del_keys, &key);
        let ghost prev = result@;
        proof {
            if has_str(seen@, key@) {
                let q = choose|q: int| 0 <= q < seen@.len() && #[trigger] seen@[q]@ == key@;
                assert(song_key(prev[q].song) == key@);
            }
            if has_play_key(prev, key@) {
                let q = choose|q: int| 0 <= q < prev.len() && song_key((#[trigger] prev[q]).song) == key@;
                assert(seen@[q]@ == key@);
            }
        }
        let removed = match del {
            Some(dt) => dt > rp.played_at,
            None => false,
        };
        if !removed {
            if !str_in(&seen, &key) {
                result.push(rp.clone());
                seen.push(key);
            }
        }
        m = m + 1;
    }
    let ghost kept = result@;
    if result.len() > MAX_RECENT_PLAYS {
        result.truncate(MAX_RECENT_PLAYS);
        assert(result@ =~= kept.take(MAX_RECENT_PLAYS as int));
    }
    result
}

// ===== synchronisation log =====

/// Whether some entry of `es` has timestamp `t`.
pub open spec fn has_timestamp(es: Seq<SyncLogEntry>, t: i64) -> bool {
    exists|i: int| 0 <= i < es.len() && (#[trigger] es[i]).timestamp == t
}

/// The first entry of each timestamp among the first `n` entries of `all`.
pub open spec fn unique_log(all: Seq<SyncLogEntry>, n: nat) -> Seq<SyncLogEntry>
    decreases n,
{
    if n == 0 {
        Seq::empty()
    } else {
        let prev = unique_log(all, (n - 1) as nat);
        if has_timestamp(prev, all[n - 1].timestamp) { prev } else { prev.push(all[n - 1]) }
    }
}

pub open spec fn log_times(es: Seq<SyncLogEntry>) -> Seq<i64> {
    es.map_values(|e: SyncLogEntry| e.timestamp)
}

/// Merged log: one entry per timestamp, latest first, at most `MAX_SYNC_LOG`.
pub open spec fn spec_merge_sync_log(local: Seq<SyncLogEntry>, remote: Seq<SyncLogEntry>) -> Seq<SyncLogEntry> {
    let all = local + remote;
    let uniq = unique_log(all, all.len());
    truncated(reorder(uniq, sorted_desc(log_times(uniq), uniq.len())), MAX_SYNC_LOG as nat)
}

/// Merges the synchronisation logs of both sides.
pub fn merge_sync_log(local: &Vec<SyncLogEntry>, remote: &Vec<SyncLogEntry>) -> (r: Vec<SyncLogEntry>)
    ensures
        r@ == spec_merge_sync_log(local@, remote@),
{
    let ghost all = local@ + remote@;
    let mut uniq: Vec<SyncLogEntry> = Vec::new();
    let mut times: Vec<i64> = Vec::new();
    let ghost mut n: nat = 0;
    let mut side: usize = 0;
    while side < 2
        invariant
            side <= 2,
            all == local@ + remote@,
            n == if side == 0 { 0 } else if side == 1 { local@.len() } else { local@.len() + remote@.len() },
            times@ == log_times(uniq@),
            uniq@ == unique_log(all, n),
        decreases 2 - side,
    {
        let list = if side == 0 { local } else { remote };
        let ghost off: nat = n;
        let mut k: usize = 0;
        while k < list.len()
            invariant
                k <= list@.len(),
                all == local@ + remote@,
                off + list@.len() <= all.len(),
                forall|j: int| 0 <= j < list@.len() ==> all[off + j] == #[trigger] list@[j],
                n == off + k,
                times@ == log_times(uniq@),
                uniq@ == unique_log(all, n),
            decreases list@.len() - k,
        {
            let e = &list[k];
            assert(all[n as int] == *e);
            let mut found = false;
            let mut q: usize = 0;
            while q < times.len()
                invariant
                    q <= times@.len(),
                    times@ == log_times(uniq@),
                    found == exists|x: int| 0 <= x < q && times@[x] == e.timestamp,
                decreases times@.len() - q,
            {
                if times[q] == e.timestamp {
                    found = true;
                }
                q = q + 1;
            }
            proof {
                if found {
                    let x = choose|x: int| 0 <= x < q && times@[x] == e.timestamp;
                    assert(uniq@[x].timestamp == e.timestamp);
                }
                if has_timestamp(uniq@, e.timestamp) {
                    let x = choose|x: int| 0 <= x < uniq@.len() && (#[trigger] uniq@[x]).timestamp == e.timestamp;
                    assert(times@[x] == e.timestamp);
                }
            }
            if !found {
                uniq.push(e.clone());
                times.push(e.timestamp);
                assert(times@ =~= log_times(uniq@));
            }
            proof {
                n = n + 1;
            }
            k = k + 1;
        }
        side = side + 1;
    }
    let order = stable_order_desc(&times);
    let ghost sd = sorted_desc(times@, times@.len());
    let ghost full = reorder(uniq@, sd);
    let mut result: Vec<SyncLogEntry> = Vec::new();
    let mut m: usize = 0;
    while m < order.len() && m < MAX_SYNC_LOG
        invariant
            m <= order@.len(),
            m <= MAX_SYNC_LOG,
            order@.len() == times@.len() == uniq@.len(),
            sd.len() == times@.len(),
            full == reorder(uniq@, sd),
            forall|k: int| 0 <= k < order@.len() ==> #[trigger] order@[k] < times@.len(),
            forall|k: int| 0 <= k < order@.len() ==> order@[k] as int == sd[k],
            result@ == full.take(m as int),
        decreases order@.len() - m,
    {
        result.push(uniq[order[m]].clone());
        m = m + 1;
        assert(result@ =~= full.take(m as int));
    }
    assert(full.len() == order@.len());
    if m == order.len() {
        assert(full.take(m as int) =~= full);
        assert(full.len() <= MAX_SYNC_LOG);
        assert(truncated(full, MAX_SYNC_LOG as nat) == full);
    } else {
        assert(m == MAX_SYNC_LOG);
        assert(full.len() > MAX_SYNC_LOG);
        assert(truncated(full, MAX_SYNC_LOG as nat) == full.take(MAX_SYNC_LOG as int));
    }
    result
}

// ===== whole data =====

/// The ids of a list of playlists.
pub open spec fn playlist_ids(ps: Seq<SyncPlaylist>) -> Seq<Seq<char>> {
    ps.map_values(|p: SyncPlaylist| p.id@)
}

/// The stable keys of a list of songs.
pub open spec fn song_key_seq(songs: Seq<SyncSong>) -> Seq<Seq<char>> {
    songs.map_values(|s: SyncSong| song_key(s))
}

/// The stable keys of the songs of a list of plays.
pub open spec fn play_key_seq(ps: Seq<SyncRecentPlay>) -> Seq<Seq<char>> {
    ps.map_values(|p: SyncRecentPlay| song_key(p.song))
}

/// Whether playlist `i` differs in name or songs.
pub open spec fn playlist_differs(r: SyncPlaylist, m: SyncPlaylist) -> bool {
    r.name@ != m.name@ || r.songs@.len() != m.songs@.len() || song_key_seq(r.songs@) != song_key_seq(m.songs@)
}

/// Whether the merged data differs from the remote data in what decides an
/// upload: the playlists (ids, order, names, songs), the number of favourite
/// playlists, and the songs of the first 50 recent plays.
pub open spec fn spec_has_data_changed(remote: SyncData, merged: SyncData) -> bool {
    ||| remote.playlists@.len() != merged.playlists@.len()
    ||| playlist_ids(remote.playlists@) != playlist_ids(merged.playlists@)
    ||| exists|i: int| 0 <= i < remote.playlists@.len()
            && playlist_differs(#[trigger] remote.playlists@[i], merged.playlists@[i])
    ||| remote.favorite_playlists@.len() != merged.favorite_playlists@.len()
    ||| play_key_seq(truncated(remote.recent_plays@, 50)) != play_key_seq(truncated(merged.recent_plays@, 50))
}

/// Whether two key lists are equal.
fn strings_eq(a: &Vec<String>, b: &Vec<String>) -> (r: bool)
    ensures
        r == (a@.map_values(|s: String| s@) == b@.map_values(|s: String| s@)),
{
    if a.len() != b.len() {
        assert(a@.map_values(|s: String| s@).len() != b@.map_values(|s: String| s@).len());
        return false;
    }
    let mut i: usize = 0;
    while i < a.len()
        invariant
            a@.len() == b@.len(),
            i <= a@.len(),
            forall|j: int| 0 <= j < i ==> a@[j]@ == b@[j]@,
        decreases a@.len() - i,
    {
        if a[i] != b[i] {
            assert(a@.map_values(|s: String| s@)[i as int] != b@.map_values(|s: String| s@)[i as int]);
            return false;
        }
        i = i + 1;
    }
    assert(a@.map_values(|s: String| s@) =~= b@.map_values(|s: String| s@));
    true
}

/// The stable keys of the songs of the first `n` plays.
fn play_keys(ps: &Vec<SyncRecentPlay>, n: usize) -> (r: Vec<String>)
    ensures
        r@.map_values(|s: String| s@) == play_key_seq(truncated(ps@, n as nat)),
{
    let mut r: Vec<String> = Vec::new();
    let mut i: usize = 0;
    while i < ps.len() && i < n
        invariant
            i <= ps@.len(),
            i <= n,
            r@.map_values(|s: String| s@) == play_key_seq(ps@.take(i as int)),
        decreases ps@.len() - i,
    {
        let ghost prev = r@;
        let key = song_stable_key(&ps[i].song);
        r.push(key);
        proof {
            assert(r@ == prev.push(key));
            assert(ps@.take(i + 1) == ps@.take(i as int).push(ps@[i as int]));
            assert(r@.map_values(|s: String| s@) =~= prev.map_values(|s: String| s@).push(key@));
            assert(play_key_seq(ps@.take(i + 1)) =~= play_key_seq(ps@.take(i as int)).push(song_key(ps@[i as int].song)));
        }
        i = i + 1;
    }
    if i == ps.len() {
        assert(ps@.take(i as int) =~= ps@);
    }
    r
}

/// Whether the merged data must be uploaded because it differs from the
/// remote data.
pub fn has_data_changed(remote: &SyncData, merged: &SyncData) -> (r: bool)
    ensures
        r == spec_has_data_changed(*remote, *merged),
{
    if remote.playlists.len() != merged.playlists.len() {
        return true;
    }
    let mut i: usize = 0;
    while i < remote.playlists.len()
        invariant
            remote.playlists@.len() == merged.playlists@.len(),
            i <= remote.playlists@.len(),
            forall|j: int| 0 <= j < i ==> remote.playlists@[j].id@ == merged.playlists@[j].id@,
        decreases remote.playlists@.len() - i,
    {
        if remote.playlists[i].id != merged.playlists[i].id {
            assert(playlist_ids(remote.playlists@)[i as int] != playlist_ids(merged.playlists@)[i as int]);
            return true;
        }
        i = i + 1;
    }
    assert(playlist_ids(remote.playlists@) =~= playlist_ids(merged.playlists@));
    let mut k: usize = 0;
    while k < remote.playlists.len()
        invariant
            remote.playlists@.len() == merged.playlists@.len(),
            k <= remote.playlists@.len(),
            playlist_ids(remote.playlists@) == playlist_ids(merged.playlists@),
            forall|j: int| 0 <= j < k ==> !playlist_differs(#[trigger] remote.playlists@[j], merged.playlists@[j]),
        decreases remote.playlists@.len() - k,
    {
        if remote.playlists[k].name != merged.playlists[k].name || remote.playlists[k].songs.len() != merged.playlists[k].songs.len() {
            assert(playlist_differs(remote.playlists@[k as int], merged.playlists@[k as int]));
            return true;
        }
        let rk = song_keys(&remote.playlists[k].songs);
        let mk = song_keys(&merged.playlists[k].songs);
        let same = strings_eq(&rk, &mk);
        assert(rk@.map_values(|s: String| s@) =~= song_key_seq(remote.playlists@[k as int].songs@));
        assert(mk@.map_values(|s: String| s@) =~= song_key_seq(merged.playlists@[k as int].songs@));
        if !same {
            assert(playlist_differs(remote.playlists@[k as int], merged.playlists@[k as int]));
            return true;
        }
        k = k + 1;
    }
    if remote.favorite_playlists.len() != merged.favorite_playlists.len() {
        return true;
    }
    let rr = play_keys(&remote.recent_plays, 50);
    let mr = play_keys(&merged.recent_plays, 50);
    if !strings_eq(&rr, &mr) {
        return true;
    }
    false
}

/// Merges local and remote data three ways against the last synchronised
/// state; the result is stamped `now` (milliseconds since the epoch).
pub fn three_way_merge_at(
    local: &SyncData,
    remote: &SyncData,
    last_sync_time: i64,
    base_snapshot: &Vec<SnapshotEntry>,
    now: i64,
) -> (r: SyncData)
    ensures
        r.version@ == spec_default_version(),
        r.device_id@ == local.device_id@,
        r.device_name@ == local.device_name@,
        r.playlists@.len() == spec_merge_playlists(local.playlists@, remote.playlists@, last_sync_time, base_snapshot@).len(),
        forall|i: int| 0 <= i < r.playlists@.len() ==> (#[trigger] r.playlists@[i])@ == spec_merge_playlists(local.playlists@, remote.playlists@, last_sync_time, base_snapshot@)[i],
        favorite_views(r.favorite_playlists@) == spec_merge_favorite_playlists(local.favorite_playlists@, remote.favorite_playlists@),
        r.recent_play_deletions@ == spec_merge_recent_play_deletions(local.recent_play_deletions@, remote.recent_play_deletions@),
        r.recent_plays@ == spec_merge_recent_plays(local.recent_plays@, remote.recent_plays@, r.recent_play_deletions@),
        r.sync_log@ == spec_merge_sync_log(local.sync_log@, remote.sync_log@),
        r.last_modified == now,
{
    let playlists = merge_playlists(&local.playlists, &remote.playlists, last_sync_time, base_snapshot);
    let favorites = merge_favorite_playlists(&local.favorite_playlists, &remote.favorite_playlists, last_sync_time);
    let deletions = merge_recent_play_deletions(&local.recent_play_deletions, &remote.recent_play_deletions);
    let recent = merge_recent_plays(&local.recent_plays, &remote.recent_plays, &deletions);
    let log = merge_sync_log(&local.sync_log, &remote.sync_log);
    SyncData {
        version: default_version(),
        device_id: local.device_id.clone(),
        device_name: local.device_name.clone(),
        last_modified: now,
        playlists,
        favorite_playlists: favorites,
        recent_plays: recent,
        sync_log: log,
        recent_play_deletions: deletions,
    }
}

/// Merges local and remote data three ways against the last synchronised
/// state; the result is stamped with the current time.
pub fn three_way_merge(local: &SyncData, remote: &SyncData, last_sync_time: i64, base_snapshot: &Vec<SnapshotEntry>) -> (r: SyncData)
    ensures
        r.version@ == spec_default_version(),
        r.device_id@ == local.device_id@,
        r.device_name@ == local.device_name@,
        r.playlists@.len() == spec_merge_playlists(local.playlists@, remote.playlists@, last_sync_time, base_snapshot@).len(),
        forall|i: int| 0 <= i < r.playlists@.len() ==> (#[trigger] r.playlists@[i])@ == spec_merge_playlists(local.playlists@, remote.playlists@, last_sync_time, base_snapshot@)[i],
        favorite_views(r.favorite_playlists@) == spec_merge_favorite_playlists(local.favorite_playlists@, remote.favorite_playlists@),
        r.recent_play_deletions@ == spec_merge_recent_play_deletions(local.recent_play_deletions@, remote.recent_play_deletions@),
        r.recent_plays@ == spec_merge_recent_plays(local.recent_plays@, remote.recent_plays@, r.recent_play_deletions@),
        r.sync_log@ == spec_merge_sync_log(local.sync_log@, remote.sync_log@),
{
    three_way_merge_at(local, remote, last_sync_time, base_snapshot, now_millis())
}

} // verus!
