use vstd::prelude::*;
use rand::seq::SliceRandom;
use crate::state::{TrackInfo, RepeatMode};

verus! {

/// Shuffles `v` in place with `SliceRandom::shuffle` and the thread-local
/// generator of `rand`. The outcome depends on chance; what holds of every
/// outcome is that the items are the same, each as often, in some order.
#[verifier::external_body]
fn shuffle_in_place(v: &mut Vec<usize>)
    ensures
        final(v)@.to_multiset() == old(v)@.to_multiset(),
{
    v.shuffle(&mut rand::thread_rng());
}

/// `s` lists each index `0..n` exactly once.
pub open spec fn is_index_permutation(s: Seq<usize>, n: nat) -> bool {
    &&& s.len() == n
    &&& forall|i: int| 0 <= i < s.len() ==> (#[trigger] s[i]) < n
    &&& s.no_duplicates()
}

/// `tracks[i]`, if there is one.
pub open spec fn track_at(tracks: Seq<TrackInfo>, i: int) -> Option<TrackInfo> {
    if 0 <= i < tracks.len() { Some(tracks[i]) } else { None }
}

/// The track that `r` points at, as a value.
pub open spec fn deref_track(r: Option<&TrackInfo>) -> Option<TrackInfo> {
    match r {
        Some(t) => Some(*t),
        None => None,
    }
}

/// The mode that follows `m` in the cycle Off, All, One.
pub open spec fn next_repeat_mode(m: RepeatMode) -> RepeatMode {
    match m {
        RepeatMode::Off => RepeatMode::All,
        RepeatMode::All => RepeatMode::One,
        RepeatMode::One => RepeatMode::Off,
    }
}

/// The play queue: the tracks, the current one, and the repeat and shuffle
/// settings with the order in which shuffled tracks are played.
pub struct PlayQueue {
    pub tracks: Vec<TrackInfo>,
    pub current_index: Option<usize>,
    pub repeat_mode: RepeatMode,
    pub shuffle: bool,
    /// The order in which shuffled tracks are played (indices into `tracks`).
    pub shuffle_order: Vec<usize>,
    /// The place of the current track in `shuffle_order`.
    pub shuffle_pos: usize,
}

/// Where the queue goes on `next`: the new shuffle position and the index of
/// the next track, or `None` when the queue ends there.
pub open spec fn spec_next_step(q: PlayQueue) -> Option<(nat, nat)> {
    let len = q.tracks@.len();
    let idx: nat = match q.current_index { Some(i) => i as nat, None => 0 };
    let pos = q.shuffle_position();
    let order = q.shuffle_order_view();
    if len == 0 {
        None
    } else {
        match q.repeat_mode {
            RepeatMode::One => Some((pos, idx)),
            RepeatMode::All => if q.shuffle {
                let p = ((pos + 1) % len) as nat;
                Some((p, order[p as int] as nat))
            } else {
                Some((pos, ((idx + 1) % len) as nat))
            },
            RepeatMode::Off => if q.shuffle {
                if pos + 1 >= len { None } else { Some(((pos + 1) as nat, order[(pos + 1) as int] as nat)) }
            } else if idx + 1 >= len {
                None
            } else {
                Some((pos, (idx + 1) as nat))
            },
        }
    }
}

/// Where the queue goes on `prev`: the new shuffle position and the index of
/// the previous track.
pub open spec fn spec_prev_step(q: PlayQueue) -> Option<(nat, nat)> {
    let len = q.tracks@.len();
    let idx: nat = match q.current_index { Some(i) => i as nat, None => 0 };
    let pos = q.shuffle_position();
    let order = q.shuffle_order_view();
    if len == 0 {
        None
    } else if q.shuffle {
        if pos == 0 { Some((0, order[0] as nat)) } else { Some(((pos - 1) as nat, order[pos - 1] as nat)) }
    } else if idx == 0 {
        if q.repeat_mode == RepeatMode::All { Some((pos, (len - 1) as nat)) } else { Some((pos, 0)) }
    } else {
        Some((pos, (idx - 1) as nat))
    }
}

impl PlayQueue {
    /// The order in which shuffled tracks are played.
    pub open spec fn shuffle_order_view(self) -> Seq<usize> {
        self.shuffle_order@
    }

    /// The place of the current track in the shuffled order.
    pub open spec fn shuffle_position(self) -> nat {
        self.shuffle_pos as nat
    }

    /// While shuffling, the shuffled order lists every track once and the
    /// position lies inside it.
    pub open spec fn wf(self) -> bool {
        self.shuffle ==> {
            &&& is_index_permutation(self.shuffle_order_view(), self.tracks@.len())
            &&& (self.tracks@.len() > 0 ==> self.shuffle_position() < self.tracks@.len())
        }
    }

    /// An empty queue: nothing current, no repeat, no shuffle.
    pub fn new() -> (r: Self)
        ensures
            r.wf(),
            r.tracks@.len() == 0,
            r.current_index is None,
            r.repeat_mode == RepeatMode::Off,
            !r.shuffle,
            r.shuffle_order@.len() == 0,
            r.shuffle_pos == 0,
    {
        PlayQueue {
            tracks: Vec::new(),
            current_index: None,
            repeat_mode: RepeatMode::Off,
            shuffle: false,
            shuffle_order: Vec::new(),
            shuffle_pos: 0,
        }
    }

    /// Replaces the tracks and makes `start_index` current; a new shuffled
    /// order is drawn when shuffling.
    pub fn set_tracks(&mut self, tracks: Vec<TrackInfo>, start_index: usize)
        requires
            old(self).wf(),
        ensures
            final(self).wf(),
            final(self).tracks@ == tracks@,
            final(self).current_index == Some(start_index),
            final(self).repeat_mode == old(self).repeat_mode,
            final(self).shuffle == old(self).shuffle,
            final(self).shuffle ==> final(self).shuffle_position() == 0,
            final(self).shuffle && start_index < tracks@.len()
                ==> final(self).shuffle_order_view()[0] == start_index,
    {
        self.tracks = tracks;
        self.current_index = Some(start_index);
        if self.shuffle {
            self.rebuild_shuffle();
        }
    }

    /// The current track.
    pub fn current(&self) -> (r: Option<&TrackInfo>)
        ensures
            deref_track(r) == match self.current_index {
                Some(i) => track_at(self.tracks@, i as int),
                None => None,
            },
    {
        match self.current_index {
            Some(i) => self.tracks.get(i),
            None => None,
        }
    }

    /// Moves to the next track as the repeat and shuffle settings say and
    /// returns it; `None` (nothing changed) at the end of a non-repeating
    /// queue or when it is empty.
    pub fn next(&mut self) -> (r: Option<&TrackInfo>)
        requires
            old(self).wf(),
            match old(self).current_index { Some(i) => i < usize::MAX, None => true },
        ensures
            final(self).wf(),
            final(self).tracks@ == old(self).tracks@,
            final(self).repeat_mode == old(self).repeat_mode,
            final(self).shuffle == old(self).shuffle,
            final(self).shuffle_order_view() == old(self).shuffle_order_view(),
            match spec_next_step(*old(self)) {
                Some((p, i)) => {
                    &&& final(self).current_index == Some(i as usize)
                    &&& final(self).shuffle_position() == p
                    &&& deref_track(r) == track_at(old(self).tracks@, i as int)
                },
                None => {
                    &&& final(self).current_index == old(self).current_index
                    &&& final(self).shuffle_position() == old(self).shuffle_position()
                    &&& r is None
                },
            },
    {
        if self.tracks.len() == 0 {
            return None;
        }
        let len = self.tracks.len();
        let idx = match self.current_index { Some(i) => i, None => 0 };
        let next_idx = match self.repeat_mode {
            RepeatMode::One => idx,
            RepeatMode::All => {
                if self.shuffle {
                    self.shuffle_pos = (self.shuffle_pos + 1) % len;
                    self.shuffle_order[self.shuffle_pos]
                } else {
                    (idx + 1) % len
                }
            },
            RepeatMode::Off => {
                if self.shuffle {
                    if self.shuffle_pos + 1 >= len {
                        return None;
                    }
                    self.shuffle_pos = self.shuffle_pos + 1;
                    self.shuffle_order[self.shuffle_pos]
                } else if idx + 1 >= len {
                    return None;
                } else {
                    idx + 1
                }
            },
        };
        self.current_index = Some(next_idx);
        self.tracks.get(next_idx)
    }

    /// Moves to the previous track and returns it; at the start the queue
    /// stays there, or wraps to the end when repeating all.
    pub fn prev(&mut self) -> (r: Option<&TrackInfo>)
        requires
            old(self).wf(),
        ensures
            final(self).wf(),
            final(self).tracks@ == old(self).tracks@,
            final(self).repeat_mode == old(self).repeat_mode,
            final(self).shuffle == old(self).shuffle,
            final(self).shuffle_order_view() == old(self).shuffle_order_view(),
            match spec_prev_step(*old(self)) {
                Some((p, i)) => {
                    &&& final(self).current_index == Some(i as usize)
                    &&& final(self).shuffle_position() == p
                    &&& deref_track(r) == track_at(old(self).tracks@, i as int)
                },
                None => {
                    &&& final(self).current_index == old(self).current_index
                    &&& final(self).shuffle_position() == old(self).shuffle_position()
                    &&& r is None
                },
            },
    {
        if self.tracks.len() == 0 {
            return None;
        }
        let len = self.tracks.len();
        let idx = match self.current_index { Some(i) => i, None => 0 };
        let prev_idx = if self.shuffle {
            if self.shuffle_pos == 0 {
                self.shuffle_order[0]
            } else {
                self.shuffle_pos = self.shuffle_pos - 1;
                self.shuffle_order[self.shuffle_pos]
            }
        } else if idx == 0 {
            if self.repeat_mode == RepeatMode::All { len - 1 } else { 0 }
        } else {
            idx - 1
        };
        self.current_index = Some(prev_idx);
        self.tracks.get(prev_idx)
    }

    /// Turns shuffling on or off; turning it on draws a new shuffled order.
    pub fn toggle_shuffle(&mut self)
        requires
            old(self).wf(),
        ensures
            final(self).wf(),
            final(self).shuffle == !old(self).shuffle,
            final(self).tracks@ == old(self).tracks@,
            final(self).current_index == old(self).current_index,
            final(self).repeat_mode == old(self).repeat_mode,
            final(self).shuffle ==> final(self).shuffle_position() == 0,
            final(self).shuffle && old(self).current_index is Some && old(self).current_index->0 < old(self).tracks@.len()
                ==> final(self).shuffle_order_view()[0] == old(self).current_index->0,
    {
        self.shuffle = !self.shuffle;
        if self.shuffle {
            self.rebuild_shuffle();
        }
    }

    /// Moves the repeat mode one step along Off, All, One and returns it.
    pub fn cycle_repeat(&mut self) -> (r: RepeatMode)
        requires
            old(self).wf(),
        ensures
            final(self).wf(),
            r == next_repeat_mode(old(self).repeat_mode),
            final(self).repeat_mode == r,
            final(self).tracks@ == old(self).tracks@,
            final(self).current_index == old(self).current_index,
            final(self).shuffle == old(self).shuffle,
            final(self).shuffle_order_view() == old(self).shuffle_order_view(),
            final(self).shuffle_position() == old(self).shuffle_position(),
    {
        self.repeat_mode = match self.repeat_mode {
            RepeatMode::Off => RepeatMode::All,
            RepeatMode::All => RepeatMode::One,
            RepeatMode::One => RepeatMode::Off,
        };
        self.repeat_mode
    }

    /// Draws a new shuffled order with the current track first, and starts
    /// at its beginning.
    fn rebuild_shuffle(&mut self)
        ensures
            final(self).tracks@ == old(self).tracks@,
            final(self).current_index == old(self).current_index,
            final(self).repeat_mode == old(self).repeat_mode,
            final(self).shuffle == old(self).shuffle,
            is_index_permutation(final(self).shuffle_order_view(), final(self).tracks@.len()),
            final(self).shuffle_position() == 0,
            old(self).current_index is Some && old(self).current_index->0 < old(self).tracks@.len()
                ==> final(self).shuffle_order_view()[0] == old(self).current_index->0,
    {
        let n = self.tracks.len();
        let mut order: Vec<usize> = Vec::new();
        let mut i: usize = 0;
        while i < n
            invariant
                i <= n,
                order@.len() == i,
                forall|k: int| 0 <= k < i ==> order@[k] == k,
            decreases n - i,
        {
            order.push(i);
            i = i + 1;
        }
        let ghost before = order@;
        assert(before.no_duplicates());
        proof {
            before.lemma_multiset_has_no_duplicates();
        }
        shuffle_in_place(&mut order);
        proof {
            broadcast use vstd::seq_lib::group_to_multiset_ensures;
            assert(order@.len() == n) by {
                assert(order@.to_multiset().len() == before.to_multiset().len());
            }
            assert forall|x: usize| order@.to_multiset().contains(x) implies order@.to_multiset().count(x) == 1 by {
                assert(before.to_multiset().contains(x));
            }
            order@.lemma_multiset_has_no_duplicates_conv();
            assert forall|k: int| 0 <= k < order@.len() implies (#[trigger] order@[k]) < n by {
                assert(order@.contains(order@[k]));
                assert(order@.to_multiset().count(order@[k]) > 0);
                assert(before.contains(order@[k]));
            }
        }
        match self.current_index {
            Some(idx) => {
                let mut pos: usize = 0;
                while pos < order.len() && order[pos] != idx
                    invariant
                        pos <= order@.len(),
                        forall|k: int| 0 <= k < pos ==> order@[k] != idx,
                    decreases order@.len() - pos,
                {
                    pos = pos + 1;
                }
                let found = pos < order.len();
                if found {
                    let ghost o = order@;
                    let a = order[0];
                    let b = order[pos];
                    order.set(0, b);
                    order.set(pos, a);
                    proof {
                        assert forall|k: int| 0 <= k < order@.len() implies (#[trigger] order@[k]) < n by {
                            if k == 0 { assert(order@[k] == o[pos as int]); }
                            else if k == pos { assert(order@[k] == o[0]); }
                            else { assert(order@[k] == o[k]); }
                        }
                        assert forall|x: int, y: int| 0 <= x < order@.len() && 0 <= y < order@.len() && x != y
                            implies order@[x] != order@[y] by {
                            let ox = if x == 0 { pos as int } else if x == pos { 0 } else { x };
                            let oy = if y == 0 { pos as int } else if y == pos { 0 } else { y };
                            assert(order@[x] == o[ox]);
                            assert(order@[y] == o[oy]);
                        }
                    }
                } else {
                    proof {
                        if idx < n {
                            assert(before.contains(idx)) by { assert(before[idx as int] == idx); }
                            assert(before.to_multiset().count(idx) > 0);
                            assert(order@.to_multiset().count(idx) > 0);
                            assert(order@.contains(idx));
                        }
                    }
                }
            },
            None => {},
        }
        self.shuffle_order = order;
        self.shuffle_pos = 0;
    }
}

/// Cycling the repeat mode three times comes back to where it started.
pub proof fn law_cycle_repeat_period_three(m: RepeatMode)
    ensures
        next_repeat_mode(next_repeat_mode(next_repeat_mode(m))) == m,
{
}

/// With `RepeatMode::One`, `next` stays on the current track.
pub proof fn law_repeat_one_stays(q: PlayQueue)
    requires
        q.tracks@.len() > 0,
        q.repeat_mode == RepeatMode::One,
        q.current_index is Some,
    ensures
        spec_next_step(q) == Some((q.shuffle_position(), q.current_index->0 as nat)),
{
}

/// With `RepeatMode::All`, `next` never ends a non-empty queue.
pub proof fn law_repeat_all_never_ends(q: PlayQueue)
    requires
        q.tracks@.len() > 0,
        q.repeat_mode == RepeatMode::All,
    ensures
        spec_next_step(q) is Some,
{
}

/// In order, `prev` undoes a `next` that did not wrap around.
pub proof fn law_prev_undoes_next_in_order(q: PlayQueue, i: usize)
    requires
        !q.shuffle,
        q.repeat_mode != RepeatMode::One,
        q.current_index == Some(i),
        i + 1 < q.tracks.len(),
    ensures
        spec_next_step(q) == Some((q.shuffle_position(), (i + 1) as nat)),
        spec_prev_step(PlayQueue { current_index: Some((i + 1) as usize), ..q }) == Some((q.shuffle_position(), i as nat)),
{
    vstd::arithmetic::div_mod::lemma_small_mod((i + 1) as nat, q.tracks@.len());
}

/// While shuffling, `prev` undoes a `next` that did not wrap around: it goes
/// back to the previous place in the shuffled order.
pub proof fn law_prev_undoes_next_shuffled(q: PlayQueue)
    requires
        q.wf(),
        q.shuffle,
        q.repeat_mode != RepeatMode::One,
        q.shuffle_position() + 1 < q.tracks.len(),
    ensures
        spec_next_step(q) == Some(((q.shuffle_position() + 1) as nat, q.shuffle_order_view()[(q.shuffle_position() + 1) as int] as nat)),
        spec_prev_step(PlayQueue {
            current_index: Some(q.shuffle_order_view()[(q.shuffle_position() + 1) as int]),
            shuffle_pos: (q.shuffle_pos + 1) as usize,
            ..q
        }) == Some((q.shuffle_position(), q.shuffle_order_view()[q.shuffle_position() as int] as nat)),
{
    vstd::arithmetic::div_mod::lemma_small_mod((q.shuffle_position() + 1) as nat, q.tracks@.len());
}


/// With `RepeatMode::All` in order, `prev` undoes a `next` that wrapped
/// around from the last track to the first.
pub proof fn law_prev_undoes_next_wrapping(q: PlayQueue, i: usize)
    requires
        !q.shuffle,
        q.repeat_mode == RepeatMode::All,
        q.current_index == Some(i),
        i + 1 == q.tracks.len(),
    ensures
        spec_next_step(q) == Some((q.shuffle_position(), 0nat)),
        spec_prev_step(PlayQueue { current_index: Some(0usize), ..q }) == Some((q.shuffle_position(), i as nat)),
{
    vstd::arithmetic::div_mod::lemma_mod_self_0(q.tracks@.len() as int);
}

/// A shuffled queue of one track stays on it: `next` repeating all comes
/// back to it, `next` not repeating ends the queue, and `prev` keeps it.
pub proof fn law_single_shuffled_track_stays(q: PlayQueue)
    requires
        q.wf(),
        q.shuffle,
        q.tracks@.len() == 1,
    ensures
        q.repeat_mode == RepeatMode::All ==> spec_next_step(q) == Some((0nat, 0nat)),
        q.repeat_mode == RepeatMode::Off ==> spec_next_step(q) is None,
        spec_prev_step(q) == Some((0nat, 0nat)),
{
    assert(q.shuffle_order_view()[0] < 1);
}

/// The queue after one `next`.
pub open spec fn after_next(q: PlayQueue) -> PlayQueue {
    match spec_next_step(q) {
        Some((p, i)) => PlayQueue { current_index: Some(i as usize), shuffle_pos: p as usize, ..q },
        None => q,
    }
}

/// Track `j` is current after one of the first `n` counts of `next` calls
/// (none included).
pub open spec fn visited_within(q: PlayQueue, n: nat, j: usize) -> bool {
    exists|k: nat| k < n && (#[trigger] after_nexts(q, k)).current_index == Some(j)
}

/// The queue after `k` calls of `next`.
pub open spec fn after_nexts(q: PlayQueue, k: nat) -> PlayQueue
    decreases k,
{
    if k == 0 { q } else { after_next(after_nexts(q, (k - 1) as nat)) }
}

proof fn lemma_shuffled_steps(q: PlayQueue, k: nat)
    requires
        q.wf(),
        q.shuffle,
        q.repeat_mode == RepeatMode::Off,
        q.shuffle_pos == 0,
        q.tracks@.len() > 0,
        q.current_index == Some(q.shuffle_order_view()[0]),
        k < q.tracks@.len(),
    ensures
        after_nexts(q, k).current_index == Some(q.shuffle_order_view()[k as int]),
        after_nexts(q, k).shuffle_pos == k,
        after_nexts(q, k).tracks == q.tracks,
        after_nexts(q, k).shuffle_order == q.shuffle_order,
        after_nexts(q, k).shuffle == q.shuffle,
        after_nexts(q, k).repeat_mode == q.repeat_mode,
    decreases k,
{
    if k > 0 {
        lemma_shuffled_steps(q, (k - 1) as nat);
        let st = after_nexts(q, (k - 1) as nat);
        assert(q.tracks@.len() == q.tracks.len());
        assert(st.shuffle_position() == k - 1);
        assert(spec_next_step(st) == Some((k, q.shuffle_order_view()[k as int] as nat)));
        assert(after_nexts(q, k) == after_next(st));
    }
}

/// `j` occurs among the first `n` entries of `s`.
spec fn occurs_in(s: Seq<usize>, n: nat, j: usize) -> bool {
    exists|k: int| 0 <= k < n && s[k] == j
}

proof fn lemma_permutation_covers(s: Seq<usize>, n: nat)
    requires
        is_index_permutation(s, n),
    ensures
        forall|j: usize| j < n ==> #[trigger] occurs_in(s, n, j),
{
    let t = s.map_values(|x: usize| x as int);
    assert forall|a: int, b: int| 0 <= a < t.len() && 0 <= b < t.len() && a != b implies t[a] != t[b] by {
        assert(t[a] == s[a] as int);
        assert(t[b] == s[b] as int);
        assert(s[a] != s[b]);
    }
    assert(t.no_duplicates());
    t.unique_seq_to_set();
    vstd::seq_lib::seq_to_set_is_finite(t);
    assert(t.len() == n);
    vstd::set_lib::lemma_int_range(0, n as int);
    let range = vstd::set_lib::set_int_range(0, n as int);
    assert(t.to_set().subset_of(range)) by {
        assert forall|x: int| t.to_set().contains(x) implies range.contains(x) by {
            assert(t.contains(x));
            let k = choose|k: int| 0 <= k < t.len() && t[k] == x;
            assert(s[k] < n);
        }
    }
    vstd::set_lib::lemma_subset_equality(t.to_set(), range);
    assert forall|j: usize| j < n implies #[trigger] occurs_in(s, n, j) by {
        assert(range.contains(j as int));
        assert(t.to_set().contains(j as int));
        assert(t.contains(j as int));
        let k = choose|k: int| 0 <= k < t.len() && t[k] == j as int;
        assert(s[k] == j);
    }
}

/// Shuffled play without repeat, from the start of the shuffled order (as
/// `set_tracks` and turning shuffle on leave it), plays every track exactly
/// once: the first `n - 1` calls of `next` each move on, the tracks current
/// after them are all different and cover every track, and the next call
/// ends the queue.
pub proof fn law_shuffled_play_visits_every_track_once(q: PlayQueue)
    requires
        q.wf(),
        q.shuffle,
        q.repeat_mode == RepeatMode::Off,
        q.shuffle_pos == 0,
        q.tracks@.len() > 0,
        q.current_index == Some(q.shuffle_order_view()[0]),
    ensures
        forall|k: nat| 0 < k < q.tracks@.len() ==> (#[trigger] spec_next_step(after_nexts(q, (k - 1) as nat))) is Some,
        spec_next_step(after_nexts(q, (q.tracks@.len() - 1) as nat)) is None,
        forall|k1: nat, k2: nat|
            k1 < k2 < q.tracks@.len() ==> (#[trigger] after_nexts(q, k1)).current_index != (#[trigger] after_nexts(
                q,
                k2,
            )).current_index,
        forall|j: usize| j < q.tracks@.len() ==> #[trigger] visited_within(q, q.tracks@.len(), j),
{
    let n = q.tracks@.len();
    let o = q.shuffle_order_view();
    assert forall|k: nat| 0 < k < n implies (#[trigger] spec_next_step(after_nexts(q, (k - 1) as nat))) is Some by {
        lemma_shuffled_steps(q, (k - 1) as nat);
    }
    lemma_shuffled_steps(q, (n - 1) as nat);
    assert forall|k1: nat, k2: nat| k1 < k2 < n implies (#[trigger] after_nexts(q, k1)).current_index
        != (#[trigger] after_nexts(q, k2)).current_index by {
        lemma_shuffled_steps(q, k1);
        lemma_shuffled_steps(q, k2);
        assert(o[k1 as int] != o[k2 as int]);
    }
    lemma_permutation_covers(o, n);
    assert forall|j: usize| j < n implies #[trigger] visited_within(q, n, j) by {
        assert(occurs_in(o, n, j));
        let k = choose|k: int| 0 <= k < n && o[k] == j;
        lemma_shuffled_steps(q, k as nat);
        assert(after_nexts(q, k as nat).current_index == Some(j));
    }
}

} // verus!
