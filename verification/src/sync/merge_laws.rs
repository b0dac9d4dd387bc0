use vstd::prelude::*;
use crate::order::{sorted_desc, lemma_sorted_desc_props};
use crate::sync::models::{FavoriteView, SyncFavoritePlaylist};
use crate::sync::models::{
    PlaylistView, SnapshotEntry, SyncSong, SyncPlaylist, SyncData, SyncLogEntry, SyncRecentPlay, SyncRecentPlayDeletion,
    song_key, deletion_key,
};
use crate::sync::merge::{
    has_str, has_song_key, locally_deleted, remotely_deleted, kept_local, added_remote,
    spec_merge_songs, spec_merge_playlists, ordered_merge, merge_order, merged_for, last_with_id,
    has_playlist_id, spec_has_data_changed, playlist_differs, spec_merge_sync_log, unique_log,
    has_timestamp, log_times, reorder, truncated, MAX_SYNC_LOG, deletion_group_index, deletion_groups,
    deletion_times, spec_merge_recent_play_deletions, spec_merge_recent_plays, kept_plays, last_deletion_time,
    has_play_key, play_times, MAX_DELETIONS, MAX_RECENT_PLAYS, favorite_group_index, favorite_groups,
    favorite_view_key, favorite_views, added_times, spec_merge_favorite_playlists, spec_merge_single_favorite,
    spec_merge_single_playlist,
};

verus! {

broadcast use {Seq::lemma_filter_pred, Seq::lemma_filter_contains_rev};

proof fn lemma_filter_all<A>(s: Seq<A>, p: spec_fn(A) -> bool)
    requires
        forall|x: A| #[trigger] p(x),
    ensures
        s.filter(p) == s,
    decreases s.len(),
{
    reveal_with_fuel(Seq::<_>::filter, 1);
    if s.len() > 0 {
        lemma_filter_all(s.drop_last(), p);
        assert(s.drop_last().push(s.last()) =~= s);
    }
}

proof fn lemma_song_in_has_key(songs: Seq<SyncSong>, x: SyncSong)
    requires
        songs.contains(x),
    ensures
        has_song_key(songs, song_key(x)),
{
    let i = choose|i: int| 0 <= i < songs.len() && songs[i] == x;
    assert(song_key(songs[i]) == song_key(x));
}

/// A song deleted on the local side since the last synchronisation does not
/// come back from the remote side.
pub proof fn law_merge_songs_keeps_local_deletions(local: Seq<SyncSong>, remote: Seq<SyncSong>, base: Seq<String>)
    ensures
        forall|i: int| 0 <= i < spec_merge_songs(local, remote, base).len()
            ==> !locally_deleted(local, base, song_key(#[trigger] spec_merge_songs(local, remote, base)[i])),
{
    let r = spec_merge_songs(local, remote, base);
    assert forall|i: int| 0 <= i < r.len() implies !locally_deleted(local, base, song_key(#[trigger] r[i])) by {
        let kept = kept_local(local, remote, base);
        let added = added_remote(local, remote, base);
        if i < kept.len() {
            assert(r[i] == kept[i]);
            assert(kept.contains(kept[i]));
            assert(local.contains(kept[i]));
            lemma_song_in_has_key(local, r[i]);
        } else {
            assert(r[i] == added[i - kept.len()]);
            assert(added.contains(added[i - kept.len()]));
        }
    }
}

/// A song deleted on the remote side since the last synchronisation does not
/// survive from the local side.
pub proof fn law_merge_songs_keeps_remote_deletions(local: Seq<SyncSong>, remote: Seq<SyncSong>, base: Seq<String>)
    ensures
        forall|i: int| 0 <= i < spec_merge_songs(local, remote, base).len()
            ==> !remotely_deleted(remote, base, song_key(#[trigger] spec_merge_songs(local, remote, base)[i])),
{
    let r = spec_merge_songs(local, remote, base);
    assert forall|i: int| 0 <= i < r.len() implies !remotely_deleted(remote, base, song_key(#[trigger] r[i])) by {
        let kept = kept_local(local, remote, base);
        let added = added_remote(local, remote, base);
        if i < kept.len() {
            assert(r[i] == kept[i]);
            assert(kept.contains(kept[i]));
        } else {
            assert(r[i] == added[i - kept.len()]);
            assert(added.contains(added[i - kept.len()]));
            assert(remote.contains(r[i]));
            lemma_song_in_has_key(remote, r[i]);
        }
    }
}

/// On the first synchronisation (no recorded state) the merge is additive:
/// the local songs, then the remote songs that the local side lacks.
pub proof fn law_merge_songs_first_sync_is_union(local: Seq<SyncSong>, remote: Seq<SyncSong>)
    ensures
        spec_merge_songs(local, remote, Seq::<String>::empty())
            == local + remote.filter(|s: SyncSong| !has_song_key(local, song_key(s))),
{
    let base = Seq::<String>::empty();
    let p1 = |s: SyncSong| !remotely_deleted(remote, base, song_key(s));
    lemma_filter_all(local, p1);
    let kept = kept_local(local, remote, base);
    assert(kept == local);
    let p2 = |s: SyncSong| !has_song_key(kept, song_key(s)) && !locally_deleted(local, base, song_key(s));
    let p3 = |s: SyncSong| !has_song_key(local, song_key(s));
    assert(p2 =~= p3);
}

/// What `last_with_id` finds has the id asked for.
proof fn lemma_last_with_id(ps: Seq<SyncPlaylist>, id: Seq<char>)
    ensures
        last_with_id(ps, id) matches Some(v) ==> v.id == id,
        last_with_id(ps, id) is Some ==> has_playlist_id(ps, id),
    decreases ps.len(),
{
    if ps.len() > 0 {
        lemma_last_with_id(ps.drop_last(), id);
        if ps.last().id@ != id && last_with_id(ps.drop_last(), id) is Some {
            let j = choose|j: int| 0 <= j < ps.drop_last().len() && (#[trigger] ps.drop_last()[j]).id@ == id;
            assert(ps[j].id@ == id);
        }
        if ps.last().id@ == id {
            assert(ps[ps.len() - 1].id@ == id);
        }
    }
}

/// What the merge keeps of one id is live and carries that id.
proof fn lemma_merged_for(local: Seq<SyncPlaylist>, remote: Seq<SyncPlaylist>, t: i64, base: Seq<SnapshotEntry>, id: Seq<char>)
    ensures
        merged_for(local, remote, t, base, id) matches Some(v) ==> !v.is_deleted && v.id == id,
        merged_for(local, remote, t, base, id) is Some ==> has_playlist_id(local, id) || has_playlist_id(remote, id),
{
    lemma_last_with_id(local, id);
    lemma_last_with_id(remote, id);
}

proof fn lemma_ordered_merge(all: Seq<SyncPlaylist>, local: Seq<SyncPlaylist>, remote: Seq<SyncPlaylist>, t: i64, base: Seq<SnapshotEntry>, n: nat)
    requires
        n <= all.len(),
    ensures
        forall|i: int| 0 <= i < ordered_merge(all, local, remote, t, base, n).len()
            ==> !(#[trigger] ordered_merge(all, local, remote, t, base, n)[i]).is_deleted,
        forall|i: int| 0 <= i < ordered_merge(all, local, remote, t, base, n).len()
            ==> has_playlist_id(all.take(n as int), (#[trigger] ordered_merge(all, local, remote, t, base, n)[i]).id),
        forall|i: int, j: int| 0 <= i < j < ordered_merge(all, local, remote, t, base, n).len()
            ==> ordered_merge(all, local, remote, t, base, n)[i].id != ordered_merge(all, local, remote, t, base, n)[j].id,
    decreases n,
{
    if n > 0 {
        lemma_ordered_merge(all, local, remote, t, base, (n - 1) as nat);
        let prev = ordered_merge(all, local, remote, t, base, (n - 1) as nat);
        let id = all[n - 1].id@;
        lemma_merged_for(local, remote, t, base, id);
        let r = ordered_merge(all, local, remote, t, base, n);
        assert forall|i: int| 0 <= i < prev.len() implies has_playlist_id(all.take(n as int), (#[trigger] prev[i]).id) by {
            let j = choose|j: int| 0 <= j < all.take(n - 1).len() && (#[trigger] all.take(n - 1)[j]).id@ == prev[i].id;
            assert(all.take(n as int)[j] == all.take(n - 1)[j]);
        }
        match merged_for(local, remote, t, base, id) {
            Some(p) => {
                if !has_playlist_id(all.take(n - 1), id) {
                    assert(r == prev.push(p));
                    assert(all.take(n as int)[n - 1].id@ == id);
                    assert forall|i: int, j: int| 0 <= i < j < r.len() implies r[i].id != r[j].id by {
                        if j == r.len() - 1 {
                            assert(has_playlist_id(all.take(n - 1), prev[i].id));
                        }
                    }
                }
            },
            None => {},
        }
    }
}

/// The merged playlists are live (no tombstone), each id occurs once, and
/// each id comes from one of the two sides.
pub proof fn law_merged_playlists_live_and_unique(local: Seq<SyncPlaylist>, remote: Seq<SyncPlaylist>, last_sync_time: i64, base: Seq<SnapshotEntry>)
    ensures
        forall|i: int| 0 <= i < spec_merge_playlists(local, remote, last_sync_time, base).len()
            ==> !(#[trigger] spec_merge_playlists(local, remote, last_sync_time, base)[i]).is_deleted,
        forall|i: int, j: int| 0 <= i < j < spec_merge_playlists(local, remote, last_sync_time, base).len()
            ==> spec_merge_playlists(local, remote, last_sync_time, base)[i].id
                != spec_merge_playlists(local, remote, last_sync_time, base)[j].id,
        forall|i: int| 0 <= i < spec_merge_playlists(local, remote, last_sync_time, base).len()
            ==> has_playlist_id(local, (#[trigger] spec_merge_playlists(local, remote, last_sync_time, base)[i]).id)
                || has_playlist_id(remote, spec_merge_playlists(local, remote, last_sync_time, base)[i].id),
{
    let all = merge_order(local, remote, last_sync_time);
    lemma_ordered_merge(all, local, remote, last_sync_time, base, all.len());
    let r = spec_merge_playlists(local, remote, last_sync_time, base);
    assert forall|i: int| 0 <= i < r.len() implies has_playlist_id(local, (#[trigger] r[i]).id) || has_playlist_id(remote, r[i].id) by {
        assert(all.take(all.len() as int) =~= all);
        let j = choose|j: int| 0 <= j < all.len() && (#[trigger] all[j]).id@ == r[i].id;
        if j < local.len() && all == local + remote {
            assert(local[j] == all[j]);
        } else if all == local + remote {
            assert(remote[j - local.len()] == all[j]);
        } else if j < remote.len() {
            assert(remote[j] == all[j]);
        } else {
            assert(local[j - remote.len()] == all[j]);
        }
    }
}

/// Data compared with itself has not changed: nothing is uploaded.
pub proof fn law_has_data_changed_irreflexive(d: SyncData)
    ensures
        !spec_has_data_changed(d, d),
{
}

proof fn lemma_unique_log(all: Seq<SyncLogEntry>, n: nat)
    requires
        n <= all.len(),
    ensures
        forall|i: int, j: int| 0 <= i < j < unique_log(all, n).len()
            ==> unique_log(all, n)[i].timestamp != unique_log(all, n)[j].timestamp,
    decreases n,
{
    if n > 0 {
        lemma_unique_log(all, (n - 1) as nat);
        let prev = unique_log(all, (n - 1) as nat);
        if !has_timestamp(prev, all[n - 1].timestamp) {
            let r = unique_log(all, n);
            assert forall|i: int, j: int| 0 <= i < j < r.len() implies r[i].timestamp != r[j].timestamp by {
                if j == r.len() - 1 {
                    assert(prev[i].timestamp != all[n - 1].timestamp);
                }
            }
        }
    }
}

/// The merged log holds at most `MAX_SYNC_LOG` entries, latest first, no two
/// with the same timestamp.
pub proof fn law_merged_log_sorted_unique(local: Seq<SyncLogEntry>, remote: Seq<SyncLogEntry>)
    ensures
        spec_merge_sync_log(local, remote).len() <= MAX_SYNC_LOG,
        forall|i: int, j: int| 0 <= i < j < spec_merge_sync_log(local, remote).len()
            ==> spec_merge_sync_log(local, remote)[i].timestamp > spec_merge_sync_log(local, remote)[j].timestamp,
{
    let all = local + remote;
    let uniq = unique_log(all, all.len());
    lemma_unique_log(all, all.len());
    let keys = log_times(uniq);
    lemma_sorted_desc_props(keys, uniq.len());
    let sd = sorted_desc(keys, uniq.len());
    let full = reorder(uniq, sd);
    let r = spec_merge_sync_log(local, remote);
    assert forall|i: int, j: int| 0 <= i < j < r.len() implies r[i].timestamp > r[j].timestamp by {
        assert(r[i] == full[i] && r[j] == full[j]);
        assert(full[i] == uniq[sd[i]] && full[j] == uniq[sd[j]]);
        assert(keys[sd[i]] >= keys[sd[j]]);
        assert(sd[i] != sd[j]);
        assert(keys[sd[i]] == uniq[sd[i]].timestamp);
        assert(keys[sd[j]] == uniq[sd[j]].timestamp);
        if sd[i] < sd[j] {
            assert(uniq[sd[i]].timestamp != uniq[sd[j]].timestamp);
        } else {
            assert(uniq[sd[j]].timestamp != uniq[sd[i]].timestamp);
        }
    }
}


/// No two records of `ds` are for the same song.
pub open spec fn deletion_keys_unique(ds: Seq<SyncRecentPlayDeletion>) -> bool {
    forall|i: int, j: int| 0 <= i < j < ds.len() ==> deletion_key(#[trigger] ds[i]) != deletion_key(#[trigger] ds[j])
}

/// No two plays of `ps` are of the same song.
pub open spec fn play_keys_unique(ps: Seq<SyncRecentPlay>) -> bool {
    forall|i: int, j: int| 0 <= i < j < ps.len() ==> song_key((#[trigger] ps[i]).song) != song_key((#[trigger] ps[j]).song)
}

proof fn lemma_deletion_group_index_sound(gs: Seq<SyncRecentPlayDeletion>, k: Seq<char>)
    ensures
        match deletion_group_index(gs, k) {
            Some(g) => 0 <= g < gs.len() && deletion_key(gs[g]) == k,
            None => forall|j: int| 0 <= j < gs.len() ==> deletion_key(#[trigger] gs[j]) != k,
        },
    decreases gs.len(),
{
    if gs.len() > 0 {
        lemma_deletion_group_index_sound(gs.drop_first(), k);
        if deletion_key(gs[0]) != k {
            match deletion_group_index(gs.drop_first(), k) {
                Some(i) => {
                    assert(gs[i + 1] == gs.drop_first()[i]);
                },
                None => {
                    assert forall|j: int| 0 <= j < gs.len() implies deletion_key(#[trigger] gs[j]) != k by {
                        if j > 0 {
                            assert(gs[j] == gs.drop_first()[j - 1]);
                        }
                    }
                },
            }
        }
    }
}

proof fn lemma_deletion_groups_unique(all: Seq<SyncRecentPlayDeletion>, n: nat)
    requires
        n <= all.len(),
    ensures
        deletion_keys_unique(deletion_groups(all, n)),
    decreases n,
{
    if n > 0 {
        lemma_deletion_groups_unique(all, (n - 1) as nat);
        let prev = deletion_groups(all, (n - 1) as nat);
        let d = all[n - 1];
        let cur = deletion_groups(all, n);
        lemma_deletion_group_index_sound(prev, deletion_key(d));
        match deletion_group_index(prev, deletion_key(d)) {
            Some(g) => {
                assert forall|i: int, j: int| 0 <= i < j < cur.len() implies deletion_key(#[trigger] cur[i])
                    != deletion_key(#[trigger] cur[j]) by {
                    assert(deletion_key(cur[i]) == deletion_key(prev[i]));
                    assert(deletion_key(cur[j]) == deletion_key(prev[j]));
                }
            },
            None => {
                assert forall|i: int, j: int| 0 <= i < j < cur.len() implies deletion_key(#[trigger] cur[i])
                    != deletion_key(#[trigger] cur[j]) by {
                    assert(cur[i] == prev[i]);
                    if j < prev.len() {
                        assert(cur[j] == prev[j]);
                    }
                }
            },
        }
    }
}

proof fn lemma_last_deletion_time_unique(ds: Seq<SyncRecentPlayDeletion>, j: int)
    requires
        deletion_keys_unique(ds),
        0 <= j < ds.len(),
    ensures
        last_deletion_time(ds, deletion_key(ds[j])) == Some(ds[j].deleted_at),
    decreases ds.len(),
{
    if j < ds.len() - 1 {
        let q = ds.drop_last();
        assert(deletion_key(ds[j]) != deletion_key(ds[ds.len() - 1]));
        assert(deletion_keys_unique(q)) by {
            assert forall|a: int, b: int| 0 <= a < b < q.len() implies deletion_key(#[trigger] q[a]) != deletion_key(#[trigger] q[b]) by {
                assert(q[a] == ds[a] && q[b] == ds[b]);
            }
        }
        assert(q[j] == ds[j]);
        lemma_last_deletion_time_unique(q, j);
    }
}

proof fn lemma_kept_plays(ps: Seq<SyncRecentPlay>, ds: Seq<SyncRecentPlayDeletion>, n: nat)
    requires
        n <= ps.len(),
    ensures
        play_keys_unique(kept_plays(ps, ds, n)),
        forall|i: int| 0 <= i < kept_plays(ps, ds, n).len() ==> !(last_deletion_time(
            ds,
            song_key((#[trigger] kept_plays(ps, ds, n)[i]).song),
        ) matches Some(t) && t > kept_plays(ps, ds, n)[i].played_at),
    decreases n,
{
    if n > 0 {
        lemma_kept_plays(ps, ds, (n - 1) as nat);
        let prev = kept_plays(ps, ds, (n - 1) as nat);
        let cur = kept_plays(ps, ds, n);
        let rp = ps[n - 1];
        let k = song_key(rp.song);
        if !(last_deletion_time(ds, k) matches Some(t) && t > rp.played_at) && !has_play_key(prev, k) {
            assert(cur == prev.push(rp));
            assert forall|i: int| 0 <= i < cur.len() implies !(last_deletion_time(ds, song_key((#[trigger] cur[i]).song))
                matches Some(t) && t > cur[i].played_at) by {
                if i < prev.len() {
                    assert(cur[i] == prev[i]);
                }
            }
            assert forall|i: int, j: int| 0 <= i < j < cur.len() implies song_key((#[trigger] cur[i]).song)
                != song_key((#[trigger] cur[j]).song) by {
                assert(cur[i] == prev[i]);
                if j < prev.len() {
                    assert(cur[j] == prev[j]);
                } else if song_key(prev[i].song) == k {
                    assert(has_play_key(prev, k));
                }
            }
        }
    }
}

/// The merged deletion records hold one record per song, and no merged
/// recent play is of a song whose merged deletion came after it; each song
/// is played once in the merged list.
pub proof fn law_merged_plays_respect_deletions(
    local_plays: Seq<SyncRecentPlay>,
    remote_plays: Seq<SyncRecentPlay>,
    local_deletions: Seq<SyncRecentPlayDeletion>,
    remote_deletions: Seq<SyncRecentPlayDeletion>,
)
    ensures
        deletion_keys_unique(spec_merge_recent_play_deletions(local_deletions, remote_deletions)),
        play_keys_unique(
            spec_merge_recent_plays(local_plays, remote_plays, spec_merge_recent_play_deletions(local_deletions, remote_deletions)),
        ),
        forall|i: int, j: int|
            0 <= i < spec_merge_recent_plays(
                local_plays,
                remote_plays,
                spec_merge_recent_play_deletions(local_deletions, remote_deletions),
            ).len() && 0 <= j < spec_merge_recent_play_deletions(local_deletions, remote_deletions).len()
                && deletion_key(#[trigger] spec_merge_recent_play_deletions(local_deletions, remote_deletions)[j])
                == song_key((#[trigger] spec_merge_recent_plays(
                local_plays,
                remote_plays,
                spec_merge_recent_play_deletions(local_deletions, remote_deletions),
            )[i]).song) ==> spec_merge_recent_play_deletions(local_deletions, remote_deletions)[j].deleted_at
                <= spec_merge_recent_plays(
                local_plays,
                remote_plays,
                spec_merge_recent_play_deletions(local_deletions, remote_deletions),
            )[i].played_at,
{
    let all_d = local_deletions + remote_deletions;
    let groups = deletion_groups(all_d, all_d.len());
    lemma_deletion_groups_unique(all_d, all_d.len());
    let sd = sorted_desc(deletion_times(groups), groups.len());
    lemma_sorted_desc_props(deletion_times(groups), groups.len());
    let full = reorder(groups, sd);
    let dels = spec_merge_recent_play_deletions(local_deletions, remote_deletions);
    assert(dels == truncated(full, MAX_DELETIONS as nat));
    assert forall|i: int, j: int| 0 <= i < j < dels.len() implies deletion_key(#[trigger] dels[i]) != deletion_key(#[trigger] dels[j]) by {
        assert(dels[i] == full[i] && dels[j] == full[j]);
        assert(full[i] == groups[sd[i]] && full[j] == groups[sd[j]]);
        assert(sd[i] != sd[j]);
        if sd[i] < sd[j] {
            assert(deletion_key(groups[sd[i]]) != deletion_key(groups[sd[j]]));
        } else {
            assert(deletion_key(groups[sd[j]]) != deletion_key(groups[sd[i]]));
        }
    }
    let all_p = local_plays + remote_plays;
    let sorted = reorder(all_p, sorted_desc(play_times(all_p), all_p.len()));
    lemma_sorted_desc_props(play_times(all_p), all_p.len());
    lemma_kept_plays(sorted, dels, sorted.len());
    let kept = kept_plays(sorted, dels, sorted.len());
    let plays = spec_merge_recent_plays(local_plays, remote_plays, dels);
    assert(plays == truncated(kept, MAX_RECENT_PLAYS as nat));
    assert forall|i: int, j: int| 0 <= i < j < plays.len() implies song_key((#[trigger] plays[i]).song) != song_key((#[trigger] plays[j]).song) by {
        assert(plays[i] == kept[i] && plays[j] == kept[j]);
    }
    assert forall|i: int, j: int|
        0 <= i < plays.len() && 0 <= j < dels.len() && deletion_key(#[trigger] dels[j]) == song_key((#[trigger] plays[i]).song)
        implies dels[j].deleted_at <= plays[i].played_at by {
        assert(plays[i] == kept[i]);
        lemma_last_deletion_time_unique(dels, j);
    }
}


proof fn lemma_favorite_group_index_sound(gs: Seq<FavoriteView>, k: Seq<char>)
    ensures
        match favorite_group_index(gs, k) {
            Some(g) => 0 <= g < gs.len() && favorite_view_key(gs[g]) == k,
            None => forall|j: int| 0 <= j < gs.len() ==> favorite_view_key(#[trigger] gs[j]) != k,
        },
    decreases gs.len(),
{
    if gs.len() > 0 {
        lemma_favorite_group_index_sound(gs.drop_first(), k);
        if favorite_view_key(gs[0]) != k {
            match favorite_group_index(gs.drop_first(), k) {
                Some(i) => {
                    assert(gs[i + 1] == gs.drop_first()[i]);
                },
                None => {
                    assert forall|j: int| 0 <= j < gs.len() implies favorite_view_key(#[trigger] gs[j]) != k by {
                        if j > 0 {
                            assert(gs[j] == gs.drop_first()[j - 1]);
                        }
                    }
                },
            }
        }
    }
}

proof fn lemma_favorite_groups_unique(all: Seq<FavoriteView>, n: nat)
    requires
        n <= all.len(),
    ensures
        forall|i: int, j: int|
            0 <= i < j < favorite_groups(all, n).len() ==> favorite_view_key(#[trigger] favorite_groups(all, n)[i])
                != favorite_view_key(#[trigger] favorite_groups(all, n)[j]),
    decreases n,
{
    if n > 0 {
        lemma_favorite_groups_unique(all, (n - 1) as nat);
        let prev = favorite_groups(all, (n - 1) as nat);
        let f = all[n - 1];
        let cur = favorite_groups(all, n);
        lemma_favorite_group_index_sound(prev, favorite_view_key(f));
        match favorite_group_index(prev, favorite_view_key(f)) {
            Some(g) => {
                assert(favorite_view_key(spec_merge_single_favorite(prev[g], f)) == favorite_view_key(prev[g]));
                assert forall|i: int, j: int| 0 <= i < j < cur.len() implies favorite_view_key(#[trigger] cur[i])
                    != favorite_view_key(#[trigger] cur[j]) by {
                    assert(favorite_view_key(cur[i]) == favorite_view_key(prev[i]));
                    assert(favorite_view_key(cur[j]) == favorite_view_key(prev[j]));
                }
            },
            None => {
                assert forall|i: int, j: int| 0 <= i < j < cur.len() implies favorite_view_key(#[trigger] cur[i])
                    != favorite_view_key(#[trigger] cur[j]) by {
                    assert(cur[i] == prev[i]);
                    if j < prev.len() {
                        assert(cur[j] == prev[j]);
                    }
                }
            },
        }
    }
}

/// The merged favourite playlists hold one playlist per id and source, most
/// recently added first.
pub proof fn law_merged_favorites_grouped(local: Seq<SyncFavoritePlaylist>, remote: Seq<SyncFavoritePlaylist>)
    ensures
        forall|i: int, j: int|
            0 <= i < j < spec_merge_favorite_playlists(local, remote).len() ==> favorite_view_key(
                #[trigger] spec_merge_favorite_playlists(local, remote)[i],
            ) != favorite_view_key(#[trigger] spec_merge_favorite_playlists(local, remote)[j])
                && spec_merge_favorite_playlists(local, remote)[i].added_time >= spec_merge_favorite_playlists(
                local,
                remote,
            )[j].added_time,
{
    let all = favorite_views(local + remote);
    let groups = favorite_groups(all, all.len());
    lemma_favorite_groups_unique(all, all.len());
    let keys = added_times(groups);
    lemma_sorted_desc_props(keys, groups.len());
    let sd = sorted_desc(keys, groups.len());
    let r = spec_merge_favorite_playlists(local, remote);
    assert forall|i: int, j: int| 0 <= i < j < r.len() implies favorite_view_key(#[trigger] r[i]) != favorite_view_key(#[trigger] r[j])
        && r[i].added_time >= r[j].added_time by {
        assert(r[i] == groups[sd[i]] && r[j] == groups[sd[j]]);
        assert(sd[i] != sd[j]);
        assert(keys[sd[i]] >= keys[sd[j]]);
        assert(keys[sd[i]] == groups[sd[i]].added_time);
        assert(keys[sd[j]] == groups[sd[j]].added_time);
        if sd[i] < sd[j] {
            assert(favorite_view_key(groups[sd[i]]) != favorite_view_key(groups[sd[j]]));
        } else {
            assert(favorite_view_key(groups[sd[j]]) != favorite_view_key(groups[sd[i]]));
        }
    }
}

/// The name that merging two live versions of one playlist keeps: the local
/// one, unless only the remote side changed since the last synchronisation,
/// in which case the remote one. When both sides renamed the playlist since
/// then, the local name wins.
pub proof fn law_merged_playlist_name(l: PlaylistView, r: PlaylistView, last_sync_time: i64, base: Seq<String>)
    ensures
        l.modified_at > last_sync_time ==> spec_merge_single_playlist(l, r, last_sync_time, base).name == l.name,
        r.modified_at <= last_sync_time ==> spec_merge_single_playlist(l, r, last_sync_time, base).name == l.name,
        l.modified_at <= last_sync_time && r.modified_at > last_sync_time ==> spec_merge_single_playlist(
            l,
            r,
            last_sync_time,
            base,
        ).name == r.name,
        spec_merge_single_playlist(l, r, last_sync_time, base).id == l.id,
        !spec_merge_single_playlist(l, r, last_sync_time, base).is_deleted,
        spec_merge_single_playlist(l, r, last_sync_time, base).created_at <= l.created_at,
        spec_merge_single_playlist(l, r, last_sync_time, base).created_at <= r.created_at,
        spec_merge_single_playlist(l, r, last_sync_time, base).created_at == l.created_at
            || spec_merge_single_playlist(l, r, last_sync_time, base).created_at == r.created_at,
        spec_merge_single_playlist(l, r, last_sync_time, base).modified_at >= l.modified_at,
        spec_merge_single_playlist(l, r, last_sync_time, base).modified_at >= r.modified_at,
        spec_merge_single_playlist(l, r, last_sync_time, base).modified_at == l.modified_at
            || spec_merge_single_playlist(l, r, last_sync_time, base).modified_at == r.modified_at,
{
}

/// Merging two versions of one favourite playlist keeps the later times and
/// the larger track count, and takes the rest from the more recently
/// modified version (the first on a tie): its id, source, name and deletion
/// mark.
pub proof fn law_merged_favorite_fields(a: FavoriteView, b: FavoriteView)
    ensures
        spec_merge_single_favorite(a, b).modified_at >= a.modified_at,
        spec_merge_single_favorite(a, b).modified_at >= b.modified_at,
        spec_merge_single_favorite(a, b).modified_at == a.modified_at
            || spec_merge_single_favorite(a, b).modified_at == b.modified_at,
        spec_merge_single_favorite(a, b).added_time >= a.added_time,
        spec_merge_single_favorite(a, b).added_time >= b.added_time,
        spec_merge_single_favorite(a, b).added_time == a.added_time
            || spec_merge_single_favorite(a, b).added_time == b.added_time,
        a.modified_at >= b.modified_at ==> spec_merge_single_favorite(a, b).id == a.id
            && spec_merge_single_favorite(a, b).source == a.source && spec_merge_single_favorite(a, b).name == a.name
            && spec_merge_single_favorite(a, b).is_deleted == a.is_deleted,
        a.modified_at < b.modified_at ==> spec_merge_single_favorite(a, b).id == b.id
            && spec_merge_single_favorite(a, b).source == b.source && spec_merge_single_favorite(a, b).name == b.name
            && spec_merge_single_favorite(a, b).is_deleted == b.is_deleted,
        !(a.is_deleted && b.is_deleted) ==> spec_merge_single_favorite(a, b).track_count >= a.track_count
            && spec_merge_single_favorite(a, b).track_count >= b.track_count,
{
}

/// Merging two versions of one favourite playlist loses no song while the
/// result is live: every song of either version is in it by stable key,
/// and every song in it comes from one of the versions.
pub proof fn law_live_favorite_keeps_all_songs(a: FavoriteView, b: FavoriteView)
    ensures
        !spec_merge_single_favorite(a, b).is_deleted ==> forall|i: int|
            0 <= i < a.songs.len() ==> has_song_key(spec_merge_single_favorite(a, b).songs, song_key(#[trigger] a.songs[i])),
        !spec_merge_single_favorite(a, b).is_deleted ==> forall|i: int|
            0 <= i < b.songs.len() ==> has_song_key(spec_merge_single_favorite(a, b).songs, song_key(#[trigger] b.songs[i])),
        forall|j: int|
            0 <= j < spec_merge_single_favorite(a, b).songs.len() ==> a.songs.contains(
                #[trigger] spec_merge_single_favorite(a, b).songs[j],
            ) || b.songs.contains(spec_merge_single_favorite(a, b).songs[j]),
{
    let m = spec_merge_single_favorite(a, b);
    let (newer, older) = if a.modified_at >= b.modified_at { (a, b) } else { (b, a) };
    let pred = |s: SyncSong| !has_song_key(newer.songs, song_key(s));
    let extra = older.songs.filter(pred);
    if !m.is_deleted {
        assert(!newer.is_deleted);
        assert(m.songs == newer.songs + extra);
        assert forall|i: int| 0 <= i < newer.songs.len() implies has_song_key(m.songs, song_key(#[trigger] newer.songs[i])) by {
            assert(m.songs[i] == newer.songs[i]);
        }
        assert forall|i: int| 0 <= i < older.songs.len() implies has_song_key(m.songs, song_key(#[trigger] older.songs[i])) by {
            let x = older.songs[i];
            if !has_song_key(newer.songs, song_key(x)) {
                assert(older.songs.contains(x));
                assert(extra.contains(x));
                let k = choose|k: int| 0 <= k < extra.len() && extra[k] == x;
                assert(m.songs[newer.songs.len() + k] == x);
            } else {
                let k = choose|k: int| 0 <= k < newer.songs.len() && song_key(#[trigger] newer.songs[k]) == song_key(x);
                assert(m.songs[k] == newer.songs[k]);
            }
        }
    }
    assert forall|j: int| 0 <= j < m.songs.len() implies a.songs.contains(#[trigger] m.songs[j]) || b.songs.contains(m.songs[j]) by {
        if j < newer.songs.len() {
            assert(newer.songs[j] == m.songs[j]);
        } else {
            assert(!newer.is_deleted);
            assert(m.songs == newer.songs + extra);
            let x = extra[j - newer.songs.len()];
            assert(extra.contains(x));
            assert(older.songs.contains(x));
        }
    }
}

} // verus!
