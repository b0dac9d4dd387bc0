use vstd::prelude::*;

verus! {

/// `s` with the index `x` inserted before the first index whose key is
/// smaller than `keys[x]`: later equal keys stay after earlier ones.
pub open spec fn insert_desc(keys: Seq<i64>, s: Seq<int>, x: int) -> Seq<int>
    decreases s.len(),
{
    if s.len() == 0 {
        seq![x]
    } else if keys[s[0]] < keys[x] {
        seq![x] + s
    } else {
        seq![s[0]] + insert_desc(keys, s.drop_first(), x)
    }
}

/// The indices `0..n` ordered by descending key, equal keys in index order:
/// the order that a stable sort by descending key gives.
pub open spec fn sorted_desc(keys: Seq<i64>, n: nat) -> Seq<int>
    decreases n,
{
    if n == 0 {
        Seq::empty()
    } else {
        insert_desc(keys, sorted_desc(keys, (n - 1) as nat), n - 1)
    }
}

/// The first position in `s` whose key is smaller than `keys[x]`.
pub open spec fn first_smaller(keys: Seq<i64>, s: Seq<int>, x: int, j: int) -> bool {
    &&& 0 <= j <= s.len()
    &&& forall|k: int| 0 <= k < j ==> keys[s[k]] >= keys[x]
    &&& j < s.len() ==> keys[s[j]] < keys[x]
}

proof fn lemma_insert_desc_at(keys: Seq<i64>, s: Seq<int>, x: int, j: int)
    requires
        first_smaller(keys, s, x, j),
    ensures
        insert_desc(keys, s, x) == s.insert(j, x),
    decreases s.len(),
{
    if s.len() == 0 {
        assert(s.insert(j, x) =~= seq![x]);
    } else if keys[s[0]] < keys[x] {
        assert(j == 0);
        assert(s.insert(0, x) =~= seq![x] + s);
    } else {
        assert(j > 0);
        let t = s.drop_first();
        assert(first_smaller(keys, t, x, j - 1)) by {
            assert forall|k: int| 0 <= k < j - 1 implies keys[t[k]] >= keys[x] by {
                assert(t[k] == s[k + 1]);
            }
        }
        lemma_insert_desc_at(keys, t, x, j - 1);
        assert(seq![s[0]] + t.insert(j - 1, x) =~= s.insert(j, x));
    }
}

proof fn lemma_insert_desc_len(keys: Seq<i64>, s: Seq<int>, x: int)
    ensures
        insert_desc(keys, s, x).len() == s.len() + 1,
        forall|k: int| 0 <= k < insert_desc(keys, s, x).len() ==>
            #[trigger] insert_desc(keys, s, x)[k] == x || s.contains(insert_desc(keys, s, x)[k]),
    decreases s.len(),
{
    if s.len() > 0 && keys[s[0]] >= keys[x] {
        lemma_insert_desc_len(keys, s.drop_first(), x);
        let r = insert_desc(keys, s, x);
        assert forall|k: int| 0 <= k < r.len() implies #[trigger] r[k] == x || s.contains(r[k]) by {
            if k > 0 {
                let r2 = insert_desc(keys, s.drop_first(), x);
                assert(r[k] == r2[k - 1]);
                if r2[k - 1] != x {
                    let m = choose|m: int| 0 <= m < s.drop_first().len() && s.drop_first()[m] == r2[k - 1];
                    assert(s[m + 1] == r[k]);
                }
            } else {
                assert(s[0] == r[0]);
            }
        }
    } else if s.len() > 0 {
        let r = insert_desc(keys, s, x);
        assert forall|k: int| 0 <= k < r.len() implies #[trigger] r[k] == x || s.contains(r[k]) by {
            if k > 0 {
                assert(s[k - 1] == r[k]);
            }
        }
    }
}

proof fn lemma_sorted_desc_range(keys: Seq<i64>, n: nat)
    ensures
        sorted_desc(keys, n).len() == n,
        forall|k: int| 0 <= k < n ==> 0 <= #[trigger] sorted_desc(keys, n)[k] < n,
    decreases n,
{
    if n > 0 {
        let prev = sorted_desc(keys, (n - 1) as nat);
        lemma_sorted_desc_range(keys, (n - 1) as nat);
        lemma_insert_desc_len(keys, prev, n - 1);
        assert forall|k: int| 0 <= k < n implies 0 <= #[trigger] sorted_desc(keys, n)[k] < n by {
            let r = sorted_desc(keys, n);
            if r[k] != n - 1 {
                assert(prev.contains(r[k]));
            }
        }
    }
}

/// The indices of `keys` in the order of a stable sort by descending key.
pub fn stable_order_desc(keys: &Vec<i64>) -> (r: Vec<usize>)
    ensures
        r@.len() == keys@.len(),
        sorted_desc(keys@, keys@.len()).len() == keys@.len(),
        forall|k: int| 0 <= k < r@.len() ==> r@[k] as int == sorted_desc(keys@, keys@.len())[k],
        forall|k: int| 0 <= k < r@.len() ==> #[trigger] r@[k] < keys@.len(),
{
    let mut r: Vec<usize> = Vec::new();
    let mut i: usize = 0;
    while i < keys.len()
        invariant
            i <= keys.len(),
            r@.len() == i,
            forall|k: int| 0 <= k < i ==> r@[k] as int == #[trigger] sorted_desc(keys@, i as nat)[k],
            forall|k: int| 0 <= k < i ==> #[trigger] r@[k] < i,
        decreases keys.len() - i,
    {
        proof {
            lemma_sorted_desc_range(keys@, i as nat);
        }
        let ghost s = sorted_desc(keys@, i as nat);
        let mut j: usize = 0;
        while j < r.len() && keys[r[j]] >= keys[i]
            invariant
                i < keys.len(),
                r@.len() == i,
                s.len() == i,
                forall|k: int| 0 <= k < i ==> r@[k] as int == s[k],
                forall|k: int| 0 <= k < i ==> 0 <= #[trigger] s[k] < i,
                forall|k: int| 0 <= k < i ==> #[trigger] r@[k] < i,
                j <= r.len(),
                forall|k: int| 0 <= k < j ==> keys@[s[k]] >= keys@[i as int],
            decreases r.len() - j,
        {
            j = j + 1;
        }
        proof {
            lemma_insert_desc_at(keys@, s, i as int, j as int);
        }
        let ghost old_r = r@;
        r.insert(j, i);
        i = i + 1;
        proof {
            assert(sorted_desc(keys@, i as nat) == insert_desc(keys@, s, (i - 1) as int));
            assert forall|k: int| 0 <= k < i implies #[trigger] r@[k] < i by {
                let t = s.insert(j as int, (i - 1) as int);
                if k < j {
                    assert(r@[k] == old_r[k]);
                } else if k > j {
                    assert(r@[k] == old_r[k - 1]);
                }
            }
            assert forall|k: int| 0 <= k < i implies r@[k] as int == #[trigger] sorted_desc(keys@, i as nat)[k] by {
                let t = s.insert(j as int, (i - 1) as int);
                if k < j {
                    assert(t[k] == s[k]);
                } else if k == j {
                } else {
                    assert(t[k] == s[k - 1]);
                }
            }
        }
    }
    proof {
        lemma_sorted_desc_range(keys@, keys@.len());
    }
    r
}

/// `s` lists its indices by descending key.
pub open spec fn is_sorted_desc(keys: Seq<i64>, s: Seq<int>) -> bool {
    forall|i: int, j: int| 0 <= i < j < s.len() ==> keys[s[i]] >= keys[s[j]]
}

/// `s` lists no index twice.
pub open spec fn is_distinct(s: Seq<int>) -> bool {
    forall|i: int, j: int| 0 <= i < j < s.len() ==> s[i] != s[j]
}

proof fn lemma_insert_desc_sorted(keys: Seq<i64>, s: Seq<int>, x: int)
    requires
        is_sorted_desc(keys, s),
    ensures
        is_sorted_desc(keys, insert_desc(keys, s, x)),
    decreases s.len(),
{
    lemma_insert_desc_len(keys, s, x);
    let r = insert_desc(keys, s, x);
    if s.len() == 0 {
    } else if keys[s[0]] < keys[x] {
        assert forall|i: int, j: int| 0 <= i < j < r.len() implies keys[r[i]] >= keys[r[j]] by {
            if i == 0 {
                assert(keys[s[0]] >= keys[s[j - 1]] || j - 1 == 0);
            } else {
                assert(r[i] == s[i - 1] && r[j] == s[j - 1]);
            }
        }
    } else {
        let t = s.drop_first();
        assert(is_sorted_desc(keys, t)) by {
            assert forall|i: int, j: int| 0 <= i < j < t.len() implies keys[t[i]] >= keys[t[j]] by {
                assert(t[i] == s[i + 1] && t[j] == s[j + 1]);
            }
        }
        lemma_insert_desc_sorted(keys, t, x);
        lemma_insert_desc_len(keys, t, x);
        let rt = insert_desc(keys, t, x);
        assert forall|i: int, j: int| 0 <= i < j < r.len() implies keys[r[i]] >= keys[r[j]] by {
            if i == 0 {
                assert(r[j] == rt[j - 1]);
                if rt[j - 1] != x {
                    assert(t.contains(rt[j - 1]));
                    let m = choose|m: int| 0 <= m < t.len() && t[m] == rt[j - 1];
                    assert(s[m + 1] == rt[j - 1]);
                }
            } else {
                assert(r[i] == rt[i - 1] && r[j] == rt[j - 1]);
            }
        }
    }
}

proof fn lemma_insert_desc_distinct(keys: Seq<i64>, s: Seq<int>, x: int)
    requires
        is_distinct(s),
        !s.contains(x),
    ensures
        is_distinct(insert_desc(keys, s, x)),
    decreases s.len(),
{
    lemma_insert_desc_len(keys, s, x);
    let r = insert_desc(keys, s, x);
    if s.len() == 0 {
    } else if keys[s[0]] < keys[x] {
        assert forall|i: int, j: int| 0 <= i < j < r.len() implies r[i] != r[j] by {
            if i == 0 {
                assert(r[j] == s[j - 1]);
            } else {
                assert(r[i] == s[i - 1] && r[j] == s[j - 1]);
            }
        }
    } else {
        let t = s.drop_first();
        assert(is_distinct(t)) by {
            assert forall|i: int, j: int| 0 <= i < j < t.len() implies t[i] != t[j] by {
                assert(t[i] == s[i + 1] && t[j] == s[j + 1]);
            }
        }
        assert(!t.contains(x)) by {
            if t.contains(x) {
                let m = choose|m: int| 0 <= m < t.len() && t[m] == x;
                assert(s[m + 1] == x);
            }
        }
        lemma_insert_desc_distinct(keys, t, x);
        lemma_insert_desc_len(keys, t, x);
        let rt = insert_desc(keys, t, x);
        assert forall|i: int, j: int| 0 <= i < j < r.len() implies r[i] != r[j] by {
            if i == 0 {
                assert(r[j] == rt[j - 1]);
                if rt[j - 1] == x {
                    assert(s.contains(x) == false);
                    assert(r[0] == s[0]);
                } else {
                    let m = choose|m: int| 0 <= m < t.len() && t[m] == rt[j - 1];
                    assert(s[m + 1] == rt[j - 1]);
                }
            } else {
                assert(r[i] == rt[i - 1] && r[j] == rt[j - 1]);
            }
        }
    }
}

/// The stable descending order lists each index `0..n` once, in order of
/// descending key.
pub proof fn lemma_sorted_desc_props(keys: Seq<i64>, n: nat)
    requires
        n <= keys.len(),
    ensures
        sorted_desc(keys, n).len() == n,
        forall|k: int| 0 <= k < n ==> 0 <= #[trigger] sorted_desc(keys, n)[k] < n,
        is_sorted_desc(keys, sorted_desc(keys, n)),
        is_distinct(sorted_desc(keys, n)),
    decreases n,
{
    lemma_sorted_desc_range(keys, n);
    if n > 0 {
        let prev = sorted_desc(keys, (n - 1) as nat);
        lemma_sorted_desc_props(keys, (n - 1) as nat);
        lemma_insert_desc_sorted(keys, prev, n - 1);
        assert(!prev.contains(n - 1)) by {
            if prev.contains(n - 1) {
                let m = choose|m: int| 0 <= m < prev.len() && prev[m] == n - 1;
                assert(prev[m] < n - 1);
            }
        }
        lemma_insert_desc_distinct(keys, prev, n - 1);
    }
}

} // verus!
