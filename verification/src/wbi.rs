use vstd::prelude::*;
use vstd::utf8::encode_utf8;
use crate::clock::now_secs;
use crate::decimal::{i64_to_string, int_decimal};
use crate::digest::{bytes_to_lower_hex, hex_digit_upper, hex_lower, md5, md5_digest};
use crate::text::{push_str, str_eq, str_to_string, to_chars};

verus! {

// ===== the mixin key =====

/// The order in which characters of `img_key + sub_key` make the mixin key.
pub open spec fn mixin_index() -> Seq<usize> {
    seq![
        46usize, 47, 18, 2, 53, 8, 23, 32, 15, 50, 10, 31, 58, 3, 45, 35, 27, 43, 5, 49, 33, 9, 42, 19, 29, 28, 14, 39,
        12, 38, 41, 13, 37, 48, 7, 16, 24, 55, 40, 61, 26, 17, 0, 1, 60, 51, 30, 4, 22, 25, 54, 21, 56, 62, 6, 63, 57,
        20, 34, 52, 59, 11, 36, 44,
    ]
}

/// The characters of `chars` at the first `k` positions of the table, those
/// out of range left out.
pub open spec fn mixin_chars(chars: Seq<char>, k: nat) -> Seq<char>
    decreases k,
{
    if k == 0 {
        Seq::empty()
    } else {
        let r = mixin_chars(chars, (k - 1) as nat);
        let i = mixin_index()[k - 1] as int;
        if i < chars.len() { r.push(chars[i]) } else { r }
    }
}

/// The mixin key: the first 32 characters picked by the table from
/// `img_key + sub_key`.
pub open spec fn spec_mixin_key(img_key: Seq<char>, sub_key: Seq<char>) -> Seq<char> {
    let all = mixin_chars(img_key + sub_key, 64);
    if all.len() > 32 { all.take(32) } else { all }
}

proof fn lemma_mixin_chars_grow(chars: Seq<char>, k: nat, m: nat)
    requires
        k <= m <= 64,
    ensures
        mixin_chars(chars, k).len() <= mixin_chars(chars, m).len(),
        mixin_chars(chars, k) == mixin_chars(chars, m).take(mixin_chars(chars, k).len() as int),
    decreases m,
{
    if k < m {
        lemma_mixin_chars_grow(chars, k, (m - 1) as nat);
        let prev = mixin_chars(chars, (m - 1) as nat);
        let cur = mixin_chars(chars, m);
        let l = mixin_chars(chars, k).len() as int;
        assert(cur.take(l) =~= prev.take(l));
    } else {
        assert(mixin_chars(chars, m).take(mixin_chars(chars, m).len() as int) =~= mixin_chars(chars, m));
    }
}

/// The mixin key from the image and sub keys of the signing keys.
pub fn get_mixin_key(img_key: &str, sub_key: &str) -> (r: String)
    ensures
        r@ == spec_mixin_key(img_key@, sub_key@),
{
    let mut raw = str_to_string(img_key);
    push_str(&mut raw, sub_key);
    let chars = to_chars(raw.as_str());
    let table: Vec<usize> = vec![
        46usize, 47, 18, 2, 53, 8, 23, 32, 15, 50, 10, 31, 58, 3, 45, 35, 27, 43, 5, 49, 33, 9, 42, 19, 29, 28, 14, 39,
        12, 38, 41, 13, 37, 48, 7, 16, 24, 55, 40, 61, 26, 17, 0, 1, 60, 51, 30, 4, 22, 25, 54, 21, 56, 62, 6, 63, 57,
        20, 34, 52, 59, 11, 36, 44,
    ];
    assert(table@ =~= mixin_index());
    let mut r = String::new();
    let mut k: usize = 0;
    while k < 64 && chars_len_below(&r, 32)
        invariant
            k <= 64,
            table@ == mixin_index(),
            chars@ == img_key@ + sub_key@,
            r@ == mixin_chars(chars@, k as nat),
            r@.len() <= 32,
        decreases 64 - k,
    {
        let i = table[k];
        if i < chars.len() {
            r.push(chars[i]);
        }
        k = k + 1;
    }
    proof {
        lemma_mixin_chars_grow(chars@, k as nat, 64);
        let all = mixin_chars(chars@, 64);
        if k < 64 {
            assert(r@.len() == 32);
            assert(all.take(32) == r@);
        } else {
            assert(all == r@);
        }
    }
    r
}

fn chars_len_below(s: &String, n: usize) -> (r: bool)
    ensures
        r == (s@.len() < n),
{
    let v = to_chars(s.as_str());
    v.len() < n
}

// ===== signing =====

/// `urlencoding::encode`: every byte of the UTF-8 form except ASCII letters,
/// digits, `-`, `.`, `_` and `~` becomes `%` and two uppercase hexadecimal
/// digits.
pub open spec fn url_safe_byte(b: u8) -> bool {
    (48 <= b <= 57) || (65 <= b <= 90) || (97 <= b <= 122) || b == 45 || b == 46 || b == 95 || b == 126
}

/// The percent-encoding of bytes.
pub open spec fn percent_encoded(bytes: Seq<u8>) -> Seq<char>
    decreases bytes.len(),
{
    if bytes.len() == 0 {
        Seq::empty()
    } else {
        let b = bytes.last();
        percent_encoded(bytes.drop_last()) + if url_safe_byte(b) {
            seq![b as char]
        } else {
            seq!['%', hex_digit_upper((b / 16) as int), hex_digit_upper((b % 16) as int)]
        }
    }
}

/// `urlencoding::encode`, percent-encoding the UTF-8 form of `s`.
#[verifier::external_body]
fn url_encode(s: &str) -> (r: String)
    ensures
        r@ == percent_encoded(encode_utf8(s@)),
{
    urlencoding::encode(s).into_owned()
}

/// `a` comes before `b` in the order of `String`: by character codes, a
/// prefix first.
pub open spec fn chars_lt(a: Seq<char>, b: Seq<char>) -> bool
    decreases a.len(),
{
    if a.len() == 0 {
        b.len() > 0
    } else if b.len() == 0 {
        false
    } else if a[0] != b[0] {
        a[0] < b[0]
    } else {
        chars_lt(a.drop_first(), b.drop_first())
    }
}

fn chars_lt_exec(a: &[char], b: &[char]) -> (r: bool)
    ensures
        r == chars_lt(a@, b@),
{
    let mut i: usize = 0;
    assert(a@.skip(0) =~= a@);
    assert(b@.skip(0) =~= b@);
    while i < a.len() && i < b.len() && a[i] == b[i]
        invariant
            i <= a@.len(),
            i <= b@.len(),
            chars_lt(a@.skip(i as int), b@.skip(i as int)) == chars_lt(a@, b@),
        decreases a@.len() - i,
    {
        assert(a@.skip(i as int).drop_first() =~= a@.skip(i + 1));
        assert(b@.skip(i as int).drop_first() =~= b@.skip(i + 1));
        i = i + 1;
    }
    if i == a.len() {
        i < b.len()
    } else if i == b.len() {
        false
    } else {
        a[i] < b[i]
    }
}

/// The parameters as plain values.
pub open spec fn param_views(ps: Seq<(String, String)>) -> Seq<(Seq<char>, Seq<char>)> {
    ps.map_values(|p: (String, String)| (p.0@, p.1@))
}

/// `ps` with `k` set to `v`, as a map ordered by key keeps it: an existing
/// entry is replaced in place, a new one goes before the first larger key.
pub open spec fn with_param(ps: Seq<(Seq<char>, Seq<char>)>, k: Seq<char>, v: Seq<char>) -> Seq<(Seq<char>, Seq<char>)>
    decreases ps.len(),
{
    if ps.len() == 0 {
        seq![(k, v)]
    } else if ps[0].0 == k {
        seq![(k, v)] + ps.drop_first()
    } else if chars_lt(k, ps[0].0) {
        seq![(k, v)] + ps
    } else {
        seq![ps[0]] + with_param(ps.drop_first(), k, v)
    }
}

/// Keys in strictly increasing order, so each at most once.
pub open spec fn keys_sorted(ps: Seq<(Seq<char>, Seq<char>)>) -> bool {
    forall|i: int, j: int| 0 <= i < j < ps.len() ==> chars_lt(#[trigger] ps[i].0, #[trigger] ps[j].0)
}

proof fn lemma_chars_lt_transitive(a: Seq<char>, b: Seq<char>, c: Seq<char>)
    requires
        chars_lt(a, b),
        chars_lt(b, c),
    ensures
        chars_lt(a, c),
    decreases a.len(),
{
    if a.len() > 0 && b.len() > 0 && c.len() > 0 && a[0] == b[0] && b[0] == c[0] {
        lemma_chars_lt_transitive(a.drop_first(), b.drop_first(), c.drop_first());
    }
}

proof fn lemma_chars_lt_total(a: Seq<char>, b: Seq<char>)
    requires
        a != b,
    ensures
        chars_lt(a, b) || chars_lt(b, a),
    decreases a.len(),
{
    if a.len() == 0 {
        assert(b.len() > 0) by {
            if b.len() == 0 {
                assert(a =~= b);
            }
        }
    } else if b.len() > 0 && a[0] == b[0] {
        if a.drop_first() == b.drop_first() {
            assert(a =~= seq![a[0]] + a.drop_first());
            assert(b =~= seq![b[0]] + b.drop_first());
        }
        lemma_chars_lt_total(a.drop_first(), b.drop_first());
    }
}

proof fn lemma_with_param_keys(ps: Seq<(Seq<char>, Seq<char>)>, k: Seq<char>, v: Seq<char>)
    ensures
        forall|j: int| 0 <= j < with_param(ps, k, v).len() ==>
            (#[trigger] with_param(ps, k, v)[j]).0 == k
            || exists|i: int| 0 <= i < ps.len() && ps[i].0 == with_param(ps, k, v)[j].0,
    decreases ps.len(),
{
    if ps.len() > 0 && ps[0].0 != k && !chars_lt(k, ps[0].0) {
        let rest = ps.drop_first();
        lemma_with_param_keys(rest, k, v);
        let w = with_param(ps, k, v);
        assert forall|j: int| 0 <= j < w.len() implies (#[trigger] w[j]).0 == k
            || exists|i: int| 0 <= i < ps.len() && ps[i].0 == w[j].0 by {
            if j == 0 {
                assert(ps[0].0 == w[0].0);
            } else {
                assert(w[j] == with_param(rest, k, v)[j - 1]);
                if w[j].0 != k {
                    let i = choose|i: int| 0 <= i < rest.len() && rest[i].0 == with_param(rest, k, v)[j - 1].0;
                    assert(ps[i + 1].0 == w[j].0);
                }
            }
        }
    } else if ps.len() > 0 && ps[0].0 == k {
        let w = with_param(ps, k, v);
        assert forall|j: int| 0 <= j < w.len() implies (#[trigger] w[j]).0 == k
            || exists|i: int| 0 <= i < ps.len() && ps[i].0 == w[j].0 by {
            if j > 0 {
                assert(ps[j].0 == w[j].0);
            }
        }
    } else if ps.len() > 0 {
        let w = with_param(ps, k, v);
        assert forall|j: int| 0 <= j < w.len() implies (#[trigger] w[j]).0 == k
            || exists|i: int| 0 <= i < ps.len() && ps[i].0 == w[j].0 by {
            if j > 0 {
                assert(ps[j - 1].0 == w[j].0);
            }
        }
    }
}

/// Setting a parameter keeps the keys in increasing order, each once (as a
/// map ordered by key keeps them), and afterwards the key holds the value.
pub proof fn law_with_param_keeps_keys_sorted(ps: Seq<(Seq<char>, Seq<char>)>, k: Seq<char>, v: Seq<char>)
    requires
        keys_sorted(ps),
    ensures
        keys_sorted(with_param(ps, k, v)),
        with_param(ps, k, v).contains((k, v)),
    decreases ps.len(),
{
    let w = with_param(ps, k, v);
    if ps.len() == 0 {
        assert(w[0] == (k, v));
    } else if ps[0].0 == k {
        assert(w[0] == (k, v));
        assert forall|i: int, j: int| 0 <= i < j < w.len() implies chars_lt(#[trigger] w[i].0, #[trigger] w[j].0) by {
            assert(w[i].0 == ps[i].0);
            assert(w[j].0 == ps[j].0);
        }
    } else if chars_lt(k, ps[0].0) {
        assert(w[0] == (k, v));
        assert forall|i: int, j: int| 0 <= i < j < w.len() implies chars_lt(#[trigger] w[i].0, #[trigger] w[j].0) by {
            assert(w[j] == ps[j - 1]);
            if i == 0 {
                if j - 1 > 0 {
                    assert(chars_lt(ps[0].0, ps[j - 1].0));
                    lemma_chars_lt_transitive(k, ps[0].0, ps[j - 1].0);
                }
            } else {
                assert(w[i] == ps[i - 1]);
            }
        }
    } else {
        let rest = ps.drop_first();
        assert(keys_sorted(rest)) by {
            assert forall|i: int, j: int| 0 <= i < j < rest.len() implies chars_lt(#[trigger] rest[i].0, #[trigger] rest[j].0) by {
                assert(rest[i] == ps[i + 1]);
                assert(rest[j] == ps[j + 1]);
            }
        }
        law_with_param_keeps_keys_sorted(rest, k, v);
        lemma_with_param_keys(rest, k, v);
        lemma_chars_lt_total(k, ps[0].0);
        let wr = with_param(rest, k, v);
        let wi = choose|i: int| 0 <= i < wr.len() && wr[i] == (k, v);
        assert(w[wi + 1] == (k, v));
        assert forall|i: int, j: int| 0 <= i < j < w.len() implies chars_lt(#[trigger] w[i].0, #[trigger] w[j].0) by {
            assert(w[j] == wr[j - 1]);
            if i == 0 {
                assert(w[0] == ps[0]);
                if wr[j - 1].0 != k {
                    let m = choose|m: int| 0 <= m < rest.len() && rest[m].0 == wr[j - 1].0;
                    assert(rest[m] == ps[m + 1]);
                    assert(chars_lt(ps[0].0, ps[m + 1].0));
                }
            } else {
                assert(w[i] == wr[i - 1]);
            }
        }
    }
}

fn stops_before(key: &String, kc: &Vec<char>, k: &String) -> (r: bool)
    requires
        kc@ == k@,
    ensures
        r == (key@ == k@ || chars_lt(k@, key@)),
{
    let key_chars = to_chars(key.as_str());
    str_eq(key.as_str(), k.as_str()) || chars_lt_exec(kc.as_slice(), key_chars.as_slice())
}

fn set_param(params: &mut Vec<(String, String)>, k: String, v: String)
    ensures
        param_views(final(params)@) == with_param(param_views(old(params)@), k@, v@),
{
    let ghost all = param_views(params@);
    let kc = to_chars(k.as_str());
    let mut i: usize = 0;
    assert(all.skip(0) =~= all);
    while i < params.len() && !stops_before(&params[i].0, &kc, &k)
        invariant
            i <= params@.len(),
            all == param_views(params@),
            params@ == old(params)@,
            kc@ == k@,
            with_param(all, k@, v@) == all.take(i as int) + with_param(all.skip(i as int), k@, v@),
        decreases params@.len() - i,
    {
        proof {
            let rest = all.skip(i as int);
            assert(rest[0] == all[i as int]);
            assert(rest.drop_first() =~= all.skip(i + 1));
            assert(all.take(i as int) + seq![all[i as int]] =~= all.take(i + 1));
            assert(with_param(rest, k@, v@) == seq![rest[0]] + with_param(rest.drop_first(), k@, v@));
            assert(all.take(i as int) + (seq![all[i as int]] + with_param(all.skip(i + 1), k@, v@)) =~= all.take(i + 1)
                + with_param(all.skip(i + 1), k@, v@));
        }
        i = i + 1;
    }
    let ghost rest = all.skip(i as int);
    if i < params.len() && str_eq(params[i].0.as_str(), k.as_str()) {
        let ghost prev = params@;
        params.set(i, (k, v));
        proof {
            assert(rest[0].0 == k@);
            assert(rest.drop_first() =~= all.skip(i + 1));
            assert(param_views(params@) =~= all.take(i as int) + (seq![(k@, v@)] + rest.drop_first()));
        }
    } else {
        let ghost kv = (k@, v@);
        params.insert(i, (k, v));
        proof {
            if i < all.len() {
                assert(rest[0] == all[i as int]);
                assert(rest.len() > 0);
            } else {
                assert(rest =~= Seq::<(Seq<char>, Seq<char>)>::empty());
            }
            assert(param_views(params@) =~= all.take(i as int) + (seq![kv] + rest));
        }
    }
}

/// The characters that are removed from values before signing.
pub open spec fn is_wbi_removed(c: char) -> bool {
    c == '!' || c == '\'' || c == '(' || c == ')' || c == '*'
}

/// `v` without the characters `!'()*`.
pub open spec fn wbi_clean(v: Seq<char>) -> Seq<char>
    decreases v.len(),
{
    if v.len() == 0 {
        v
    } else {
        let rest = wbi_clean(v.drop_last());
        if is_wbi_removed(v.last()) { rest } else { rest.push(v.last()) }
    }
}

/// `key=value` of one parameter, both percent-encoded, the value cleaned.
pub open spec fn param_text(p: (Seq<char>, Seq<char>)) -> Seq<char> {
    percent_encoded(encode_utf8(p.0)) + "="@ + percent_encoded(encode_utf8(wbi_clean(p.1)))
}

/// The parameters as a query string, joined with `&`.
pub open spec fn query_text(ps: Seq<(Seq<char>, Seq<char>)>) -> Seq<char>
    decreases ps.len(),
{
    if ps.len() == 0 {
        Seq::empty()
    } else if ps.len() == 1 {
        param_text(ps[0])
    } else {
        query_text(ps.drop_last()) + "&"@ + param_text(ps.last())
    }
}

/// The parameters after signing at time `wts`: `wts` set, then `w_rid` set to
/// the MD5 (lowercase hexadecimal) of the query string followed by the mixin
/// key.
pub open spec fn signed_params(
    ps: Seq<(Seq<char>, Seq<char>)>,
    mixin_key: Seq<char>,
    wts: Seq<char>,
) -> Seq<(Seq<char>, Seq<char>)> {
    let with_wts = with_param(ps, "wts"@, wts);
    let rid = hex_lower(md5_digest(encode_utf8(query_text(with_wts) + mixin_key)));
    with_param(with_wts, "w_rid"@, rid)
}

fn wbi_clean_exec(v: &str) -> (r: String)
    ensures
        r@ == wbi_clean(v@),
{
    let c = to_chars(v);
    let mut r = String::new();
    let mut i: usize = 0;
    while i < c.len()
        invariant
            i <= c@.len(),
            c@ == v@,
            r@ == wbi_clean(c@.take(i as int)),
        decreases c@.len() - i,
    {
        assert(c@.take(i + 1).drop_last() =~= c@.take(i as int));
        let ch = c[i];
        if !(ch == '!' || ch == '\'' || ch == '(' || ch == ')' || ch == '*') {
            r.push(ch);
        }
        i = i + 1;
    }
    assert(c@.take(c@.len() as int) =~= c@);
    r
}

fn query_string(params: &Vec<(String, String)>) -> (r: String)
    ensures
        r@ == query_text(param_views(params@)),
{
    let ghost all = param_views(params@);
    let mut r = String::new();
    let mut i: usize = 0;
    while i < params.len()
        invariant
            i <= params@.len(),
            all == param_views(params@),
            r@ == query_text(all.take(i as int)),
        decreases params@.len() - i,
    {
        assert(all.take(i + 1).drop_last() =~= all.take(i as int));
        if i > 0 {
            push_str(&mut r, "&");
        }
        let key = url_encode(params[i].0.as_str());
        let clean = wbi_clean_exec(params[i].1.as_str());
        let value = url_encode(clean.as_str());
        push_str(&mut r, key.as_str());
        push_str(&mut r, "=");
        push_str(&mut r, value.as_str());
        i = i + 1;
        proof {
            if i == 1 {
                assert(query_text(all.take(0)) =~= Seq::<char>::empty());
                assert(r@ =~= param_text(all[0]));
            }
        }
    }
    assert(all.take(all.len() as int) =~= all);
    r
}

/// Signs request parameters at time `wts` (seconds since the epoch): sets
/// `wts`, then `w_rid`; gives the complete signed query string. The
/// parameters are a map ordered by key: each key once, in increasing order.
pub fn sign_params_at(params: &mut Vec<(String, String)>, mixin_key: &str, wts: i64) -> (r: String)
    requires
        keys_sorted(param_views(old(params)@)),
    ensures
        param_views(final(params)@) == signed_params(param_views(old(params)@), mixin_key@, int_decimal(wts as int)),
        r@ == query_text(param_views(final(params)@)),
        keys_sorted(param_views(final(params)@)),
{
    set_param(params, str_to_string("wts"), i64_to_string(wts));
    let query = query_string(params);
    let mut to_hash = query;
    push_str(&mut to_hash, mixin_key);
    let digest = md5(to_hash.as_str().as_bytes());
    let w_rid = bytes_to_lower_hex(digest.as_slice());
    let ghost w_rid_v = w_rid@;
    set_param(params, str_to_string("w_rid"), w_rid);
    proof {
        law_with_param_keeps_keys_sorted(param_views(old(params)@), "wts"@, int_decimal(wts as int));
        law_with_param_keeps_keys_sorted(
            with_param(param_views(old(params)@), "wts"@, int_decimal(wts as int)),
            "w_rid"@,
            w_rid_v,
        );
    }
    query_string(params)
}

/// Signs request parameters now: sets `wts` to the current time, then
/// `w_rid`; gives the complete signed query string. The parameters are a map
/// ordered by key: each key once, in increasing order.
pub fn sign_params(params: &mut Vec<(String, String)>, mixin_key: &str) -> (r: String)
    requires
        keys_sorted(param_views(old(params)@)),
    ensures
        keys_sorted(param_views(final(params)@)),
        exists|t: i64|
            param_views(final(params)@) == #[trigger] signed_params(
                param_views(old(params)@),
                mixin_key@,
                int_decimal(t as int),
            ),
        r@ == query_text(param_views(final(params)@)),
{
    let t = now_secs();
    sign_params_at(params, mixin_key, t)
}

} // verus!
