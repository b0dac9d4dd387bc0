use vstd::prelude::*;
use crate::auth::state::{AuthState, CookieEntry, CookieView, cookie_views};
use crate::text::{
    first_index_of, from_char_range, lemma_first_index_of_at, push_str, str_eq, str_to_string, to_chars, trim,
    trim_bounds,
};

verus! {

// ===== reading cookie text =====

/// A character that ends a cookie: `;`, and in pasted text also a line break.
pub open spec fn is_cookie_separator(c: char, raw: bool) -> bool {
    c == ';' || (raw && (c == '\r' || c == '\n'))
}

/// The pieces of `s` between separators, as `str::split` gives them: one
/// more than there are separators.
pub open spec fn split_cookie_text(s: Seq<char>, raw: bool) -> Seq<Seq<char>>
    decreases s.len(),
{
    if s.len() == 0 {
        seq![Seq::<char>::empty()]
    } else {
        let init = split_cookie_text(s.drop_last(), raw);
        if is_cookie_separator(s.last(), raw) {
            init.push(Seq::<char>::empty())
        } else {
            init.update(init.len() - 1, init.last().push(s.last()))
        }
    }
}

proof fn lemma_split_nonempty(s: Seq<char>, raw: bool)
    ensures
        split_cookie_text(s, raw).len() >= 1,
    decreases s.len(),
{
    if s.len() > 0 {
        lemma_split_nonempty(s.drop_last(), raw);
    }
}

/// The name and value that one piece holds: the trimmed piece split at its
/// first `=`, both sides trimmed; nothing when there is no `=` or no name.
pub open spec fn cookie_pair(piece: Seq<char>) -> Option<(Seq<char>, Seq<char>)> {
    let p = trim(piece);
    match first_index_of(p, '=') {
        Some(k) => {
            let name = trim(p.take(k));
            let value = trim(p.skip(k + 1));
            if name.len() == 0 { None } else { Some((name, value)) }
        },
        None => None,
    }
}

/// The cookies that the pieces hold, each for `domain`.
pub open spec fn cookies_of(pieces: Seq<Seq<char>>, domain: Seq<char>) -> Seq<CookieView>
    decreases pieces.len(),
{
    if pieces.len() == 0 {
        Seq::empty()
    } else {
        let rest = cookies_of(pieces.drop_last(), domain);
        match cookie_pair(pieces.last()) {
            Some((n, v)) => rest.push(CookieView { name: n, value: v, domain: domain }),
            None => rest,
        }
    }
}

fn cookie_pair_exec(v: &Vec<char>, a: usize, b: usize) -> (r: Option<(String, String)>)
    requires
        a <= b <= v@.len(),
    ensures
        match cookie_pair(v@.subrange(a as int, b as int)) {
            Some((n, x)) => r matches Some(p) && p.0@ == n && p.1@ == x,
            None => r is None,
        },
{
    let (ta, tb) = trim_bounds(v.as_slice(), a, b);
    let ghost p = v@.subrange(ta as int, tb as int);
    let mut k: usize = ta;
    while k < tb && v[k] != '='
        invariant
            ta <= k <= tb <= v@.len(),
            forall|j: int| ta <= j < k ==> v@[j] != '=',
        decreases tb - k,
    {
        k = k + 1;
    }
    proof {
        assert forall|j: int| 0 <= j < k - ta implies p[j] != '=' by {
            assert(p[j] == v@[ta + j]);
        }
        lemma_first_index_of_at(p, '=', k - ta);
    }
    if k == tb {
        return None;
    }
    let (na, nb) = trim_bounds(v.as_slice(), ta, k);
    let (va, vb) = trim_bounds(v.as_slice(), k + 1, tb);
    assert(p.take(k - ta) =~= v@.subrange(ta as int, k as int));
    assert(p.skip(k - ta + 1) =~= v@.subrange(k + 1, tb as int));
    if na == nb {
        assert(v@.subrange(na as int, nb as int).len() == 0);
        return None;
    }
    Some((from_char_range(v.as_slice(), na, nb), from_char_range(v.as_slice(), va, vb)))
}

/// The cookies of a text, split at `;` (and at line breaks when `raw`), for
/// `domain`.
fn parse_cookie_pieces(text: &str, raw: bool, domain: &str) -> (r: Vec<CookieEntry>)
    ensures
        cookie_views(r@) == cookies_of(split_cookie_text(text@, raw), domain@),
{
    let v = to_chars(text);
    let mut r: Vec<CookieEntry> = Vec::new();
    let mut start: usize = 0;
    let mut i: usize = 0;
    let ghost mut done: Seq<Seq<char>> = Seq::empty();
    assert(v@.take(0) =~= Seq::<char>::empty());
    assert(split_cookie_text(v@.take(0), raw) =~= done.push(v@.subrange(0, 0)));
    while i < v.len()
        invariant
            i <= v@.len(),
            start <= i,
            v@ == text@,
            split_cookie_text(v@.take(i as int), raw) == done.push(v@.subrange(start as int, i as int)),
            cookie_views(r@) == cookies_of(done, domain@),
        decreases v@.len() - i,
    {
        assert(v@.take(i + 1).drop_last() =~= v@.take(i as int));
        assert(v@.take(i + 1).last() == v@[i as int]);
        if v[i] == ';' || (raw && (v[i] == '\r' || v[i] == '\n')) {
            match cookie_pair_exec(&v, start, i) {
                Some((n, x)) => {
                    let c = CookieEntry { name: n, value: x, domain: str_to_string(domain) };
                    let ghost prev = r@;
                    r.push(c);
                    assert(cookie_views(r@) =~= cookie_views(prev).push(c@));
                },
                None => {},
            }
            proof {
                let seg = v@.subrange(start as int, i as int);
                assert(done.push(seg).drop_last() =~= done);
                done = done.push(seg);
                assert(v@.subrange((i + 1) as int, (i + 1) as int) =~= Seq::<char>::empty());
            }
            start = i + 1;
        } else {
            proof {
                assert(v@.subrange(start as int, i as int).push(v@[i as int]) =~= v@.subrange(start as int, i + 1));
                assert(done.push(v@.subrange(start as int, i as int)).update(
                    done.len() as int,
                    v@.subrange(start as int, i + 1),
                ) =~= done.push(v@.subrange(start as int, i + 1)));
            }
        }
        i = i + 1;
    }
    assert(v@.take(v@.len() as int) =~= v@);
    let ghost last = v@.subrange(start as int, v@.len() as int);
    assert(done.push(last).drop_last() =~= done);
    match cookie_pair_exec(&v, start, v.len()) {
        Some((n, x)) => {
            let c = CookieEntry { name: n, value: x, domain: str_to_string(domain) };
            let ghost prev = r@;
            r.push(c);
            assert(cookie_views(r@) =~= cookie_views(prev).push(c@));
        },
        None => {},
    }
    r
}

/// The cookies of a `document.cookie` string: pieces split at `;`, each
/// `name=value` trimmed, for `domain`.
pub open spec fn document_cookies(cookie_str: Seq<char>, domain: Seq<char>) -> Seq<CookieView> {
    cookies_of(split_cookie_text(cookie_str, false), domain)
}

/// Reads a `document.cookie` string into cookies for `domain`.
pub fn parse_document_cookies(cookie_str: &str, domain: &str) -> (r: Vec<CookieEntry>)
    ensures
        cookie_views(r@) == document_cookies(cookie_str@, domain@),
{
    parse_cookie_pieces(cookie_str, false, domain)
}

/// The cookie domain of a platform.
pub open spec fn platform_domain(platform: Seq<char>) -> Seq<char> {
    if platform == "netease"@ {
        "music.163.com"@
    } else if platform == "bilibili"@ {
        ".bilibili.com"@
    } else if platform == "youtube"@ {
        ".youtube.com"@
    } else {
        "unknown"@
    }
}

fn platform_domain_exec(platform: &str) -> (r: &'static str)
    ensures
        r@ == platform_domain(platform@),
{
    if str_eq(platform, "netease") {
        "music.163.com"
    } else if str_eq(platform, "bilibili") {
        ".bilibili.com"
    } else if str_eq(platform, "youtube") {
        ".youtube.com"
    } else {
        "unknown"
    }
}

/// Google session cookies that YouTube also needs under `.google.com`.
pub open spec fn is_google_session_cookie(name: Seq<char>) -> bool {
    name == "SID"@ || name == "HSID"@ || name == "SSID"@ || name == "APISID"@ || name == "SAPISID"@ || name
        == "LSID"@ || name == "SIDCC"@
}

/// Copies of the Google session cookies of `cs` under `.google.com`.
pub open spec fn google_copies(cs: Seq<CookieView>) -> Seq<CookieView>
    decreases cs.len(),
{
    if cs.len() == 0 {
        Seq::empty()
    } else {
        let rest = google_copies(cs.drop_last());
        if is_google_session_cookie(cs.last().name) {
            rest.push(CookieView { domain: ".google.com"@, ..cs.last() })
        } else {
            rest
        }
    }
}

/// The cookies of pasted cookie text for a platform: pieces split at `;` and
/// line breaks, each `name=value` trimmed, for the platform's domain; for
/// YouTube the Google session cookies follow again under `.google.com`.
pub open spec fn raw_cookies(raw: Seq<char>, platform: Seq<char>) -> Seq<CookieView> {
    let entries = cookies_of(split_cookie_text(raw, true), platform_domain(platform));
    if platform == "youtube"@ { entries + google_copies(entries) } else { entries }
}

fn is_google_session_cookie_exec(name: &str) -> (r: bool)
    ensures
        r == is_google_session_cookie(name@),
{
    str_eq(name, "SID") || str_eq(name, "HSID") || str_eq(name, "SSID") || str_eq(name, "APISID") || str_eq(
        name,
        "SAPISID",
    ) || str_eq(name, "LSID") || str_eq(name, "SIDCC")
}

/// Reads pasted cookie text for a platform into cookies.
pub fn parse_raw_cookie_text(raw: &str, platform: &str) -> (r: Vec<CookieEntry>)
    ensures
        cookie_views(r@) == raw_cookies(raw@, platform@),
{
    let domain = platform_domain_exec(platform);
    let mut entries = parse_cookie_pieces(raw, true, domain);
    if str_eq(platform, "youtube") {
        let ghost base = cookie_views(entries@);
        let n = entries.len();
        let mut i: usize = 0;
        while i < n
            invariant
                n == base.len(),
                i <= n,
                entries@.len() >= n,
                cookie_views(entries@).take(n as int) == base,
                cookie_views(entries@).skip(n as int) == google_copies(base.take(i as int)),
            decreases n - i,
        {
            assert(base.take(i + 1).drop_last() =~= base.take(i as int));
            assert(cookie_views(entries@)[i as int] == base[i as int]);
            if is_google_session_cookie_exec(entries[i].name.as_str()) {
                let c = CookieEntry {
                    name: entries[i].name.clone(),
                    value: entries[i].value.clone(),
                    domain: str_to_string(".google.com"),
                };
                let ghost prev = entries@;
                entries.push(c);
                assert(cookie_views(entries@) =~= cookie_views(prev).push(c@));
                assert(cookie_views(entries@).take(n as int) =~= cookie_views(prev).take(n as int));
                assert(cookie_views(entries@).skip(n as int) =~= cookie_views(prev).skip(n as int).push(c@));
            }
            i = i + 1;
        }
        assert(base.take(n as int) =~= base);
        assert(cookie_views(entries@) =~= cookie_views(entries@).take(n as int) + cookie_views(entries@).skip(
            n as int,
        ));
    }
    entries
}

// ===== the cookie jar =====

/// `d` without its leading dots.
pub open spec fn without_leading_dots(d: Seq<char>) -> Seq<char>
    decreases d.len(),
{
    if d.len() > 0 && d[0] == '.' {
        without_leading_dots(d.drop_first())
    } else {
        d
    }
}

/// The URL under which a cookie of domain `d` is stored.
pub open spec fn domain_url(d: Seq<char>) -> Seq<char> {
    "https://"@ + without_leading_dots(d)
}

/// The URL under which a cookie of `domain` is stored: `https://` and the
/// domain without its leading dots.
pub fn domain_to_url(domain: &str) -> (r: String)
    ensures
        r@ == domain_url(domain@),
{
    let v = to_chars(domain);
    let mut a: usize = 0;
    assert(v@.subrange(0, v@.len() as int) =~= v@);
    while a < v.len() && v[a] == '.'
        invariant
            a <= v@.len(),
            without_leading_dots(v@.subrange(a as int, v@.len() as int)) == without_leading_dots(v@),
        decreases v@.len() - a,
    {
        assert(v@.subrange(a as int, v@.len() as int).drop_first() =~= v@.subrange(a + 1, v@.len() as int));
        a = a + 1;
    }
    assert(v@.subrange(0, v@.len() as int) =~= v@);
    let mut r = str_to_string("https://");
    let rest = from_char_range(v.as_slice(), a, v.len());
    push_str(&mut r, rest.as_str());
    r
}

/// The cookie line that stores a cookie, with its domain, for all paths.
pub open spec fn cookie_set_line(c: CookieView) -> Seq<char> {
    c.name + "="@ + c.value + "; Domain="@ + c.domain + "; Path=/"@
}

/// The cookie line that expires a cookie stored by `cookie_set_line`.
pub open spec fn cookie_expire_line(c: CookieView) -> Seq<char> {
    c.name + "=deleted; Domain="@ + c.domain + "; Path=/; Max-Age=0"@
}

/// For each cookie, the URL and the line that store it in the jar.
pub fn cookie_injections(entries: &Vec<CookieEntry>) -> (r: Vec<(String, String)>)
    ensures
        r@.len() == entries@.len(),
        forall|i: int|
            0 <= i < entries@.len() ==> (#[trigger] r@[i]).0@ == domain_url(entries@[i].domain@) && r@[i].1@
                == cookie_set_line(entries@[i]@),
{
    let mut r: Vec<(String, String)> = Vec::new();
    let mut i: usize = 0;
    while i < entries.len()
        invariant
            i <= entries@.len(),
            r@.len() == i,
            forall|k: int|
                0 <= k < i ==> (#[trigger] r@[k]).0@ == domain_url(entries@[k].domain@) && r@[k].1@
                    == cookie_set_line(entries@[k]@),
        decreases entries@.len() - i,
    {
        let e = &entries[i];
        let url = domain_to_url(e.domain.as_str());
        let mut line = e.name.clone();
        push_str(&mut line, "=");
        push_str(&mut line, e.value.as_str());
        push_str(&mut line, "; Domain=");
        push_str(&mut line, e.domain.as_str());
        push_str(&mut line, "; Path=/");
        r.push((url, line));
        i = i + 1;
    }
    r
}

/// For each cookie, the URL and the line that expire it in the jar.
pub fn cookie_expirations(entries: &Vec<CookieEntry>) -> (r: Vec<(String, String)>)
    ensures
        r@.len() == entries@.len(),
        forall|i: int|
            0 <= i < entries@.len() ==> (#[trigger] r@[i]).0@ == domain_url(entries@[i].domain@) && r@[i].1@
                == cookie_expire_line(entries@[i]@),
{
    let mut r: Vec<(String, String)> = Vec::new();
    let mut i: usize = 0;
    while i < entries.len()
        invariant
            i <= entries@.len(),
            r@.len() == i,
            forall|k: int|
                0 <= k < i ==> (#[trigger] r@[k]).0@ == domain_url(entries@[k].domain@) && r@[k].1@
                    == cookie_expire_line(entries@[k]@),
        decreases entries@.len() - i,
    {
        let e = &entries[i];
        let url = domain_to_url(e.domain.as_str());
        let mut line = e.name.clone();
        push_str(&mut line, "=deleted; Domain=");
        push_str(&mut line, e.domain.as_str());
        push_str(&mut line, "; Path=/; Max-Age=0");
        r.push((url, line));
        i = i + 1;
    }
    r
}

/// The cookies stored for a platform, when it has credentials.
pub open spec fn platform_cookies(auth: AuthState, platform: Seq<char>) -> Option<Seq<CookieEntry>> {
    if platform == "netease"@ {
        match auth.netease {
            Some(a) => Some(a.cookies@),
            None => None,
        }
    } else if platform == "bilibili"@ {
        match auth.bilibili {
            Some(a) => Some(a.cookies@),
            None => None,
        }
    } else if platform == "youtube"@ {
        match auth.youtube {
            Some(a) => Some(a.cookies@),
            None => None,
        }
    } else {
        None
    }
}

/// The cookies to expire when a platform logs out: all of its stored ones.
pub fn platform_cookies_exec<'a>(auth: &'a AuthState, platform: &str) -> (r: Option<&'a Vec<CookieEntry>>)
    ensures
        match r {
            Some(v) => platform_cookies(*auth, platform@) == Some(v@),
            None => platform_cookies(*auth, platform@) is None,
        },
{
    if str_eq(platform, "netease") {
        match &auth.netease {
            Some(a) => Some(&a.cookies),
            None => None,
        }
    } else if str_eq(platform, "bilibili") {
        match &auth.bilibili {
            Some(a) => Some(&a.cookies),
            None => None,
        }
    } else if str_eq(platform, "youtube") {
        match &auth.youtube {
            Some(a) => Some(&a.cookies),
            None => None,
        }
    } else {
        None
    }
}


// ===== laws =====

/// Every cookie read from cookie text has a name, and the given domain.
pub proof fn law_cookies_have_names(pieces: Seq<Seq<char>>, domain: Seq<char>)
    ensures
        forall|i: int|
            0 <= i < cookies_of(pieces, domain).len() ==> (#[trigger] cookies_of(pieces, domain)[i]).name.len() > 0
                && cookies_of(pieces, domain)[i].domain == domain,
    decreases pieces.len(),
{
    if pieces.len() > 0 {
        law_cookies_have_names(pieces.drop_last(), domain);
        let rest = cookies_of(pieces.drop_last(), domain);
        assert forall|i: int|
            0 <= i < cookies_of(pieces, domain).len() implies (#[trigger] cookies_of(pieces, domain)[i]).name.len() > 0
                && cookies_of(pieces, domain)[i].domain == domain by {
            if i < rest.len() {
                assert(cookies_of(pieces, domain)[i] == rest[i]);
            }
        }
    }
}

/// Some cookie of `cs` has the name, value and domain given.
pub open spec fn has_cookie(cs: Seq<CookieView>, name: Seq<char>, value: Seq<char>, domain: Seq<char>) -> bool {
    exists|j: int| 0 <= j < cs.len() && (#[trigger] cs[j]).name == name && cs[j].value == value && cs[j].domain == domain
}

/// Some cookie of `cs` has the name and value given.
pub open spec fn has_name_value(cs: Seq<CookieView>, name: Seq<char>, value: Seq<char>) -> bool {
    exists|j: int| 0 <= j < cs.len() && (#[trigger] cs[j]).name == name && cs[j].value == value
}

proof fn lemma_google_copies(cs: Seq<CookieView>)
    ensures
        forall|k: int| 0 <= k < cs.len() && is_google_session_cookie(cs[k].name) ==> has_cookie(
            google_copies(cs),
            (#[trigger] cs[k]).name,
            cs[k].value,
            ".google.com"@,
        ),
        forall|j: int| 0 <= j < google_copies(cs).len() ==> (#[trigger] google_copies(cs)[j]).domain == ".google.com"@
            && is_google_session_cookie(google_copies(cs)[j].name) && has_name_value(
            cs,
            google_copies(cs)[j].name,
            google_copies(cs)[j].value,
        ),
    decreases cs.len(),
{
    if cs.len() > 0 {
        let q = cs.drop_last();
        lemma_google_copies(q);
        let g = google_copies(cs);
        let gq = google_copies(q);
        assert forall|k: int| 0 <= k < cs.len() && is_google_session_cookie(cs[k].name) implies has_cookie(
            g,
            (#[trigger] cs[k]).name,
            cs[k].value,
            ".google.com"@,
        ) by {
            if k < q.len() {
                assert(q[k] == cs[k]);
                let j = choose|j: int| 0 <= j < gq.len() && (#[trigger] gq[j]).name == q[k].name && gq[j].value == q[k].value
                    && gq[j].domain == ".google.com"@;
                assert(g[j] == gq[j]);
            } else {
                assert(g[gq.len() as int].name == cs[k].name);
            }
        }
        assert forall|j: int| 0 <= j < g.len() implies (#[trigger] g[j]).domain == ".google.com"@
            && is_google_session_cookie(g[j].name) && has_name_value(cs, g[j].name, g[j].value) by {
            if j < gq.len() {
                assert(g[j] == gq[j]);
                let k = choose|k: int| 0 <= k < q.len() && (#[trigger] q[k]).name == gq[j].name && q[k].value == gq[j].value;
                assert(cs[k] == q[k]);
            } else {
                assert(cs[cs.len() - 1].name == g[j].name);
            }
        }
    }
}

/// Pasted YouTube cookies: each one named `SID`, `HSID`, `SSID`, `APISID`,
/// `SAPISID`, `LSID` or `SIDCC` under `.youtube.com` is also kept, with its
/// value, under `.google.com`; and each cookie under `.google.com` is such a
/// copy of a pasted one of those names.
pub proof fn law_youtube_session_cookies_copied_to_google(raw: Seq<char>)
    ensures
        forall|i: int|
            0 <= i < raw_cookies(raw, "youtube"@).len() && (#[trigger] raw_cookies(raw, "youtube"@)[i]).domain
                == ".youtube.com"@ && (raw_cookies(raw, "youtube"@)[i].name == "SID"@
                || raw_cookies(raw, "youtube"@)[i].name == "HSID"@ || raw_cookies(raw, "youtube"@)[i].name == "SSID"@
                || raw_cookies(raw, "youtube"@)[i].name == "APISID"@
                || raw_cookies(raw, "youtube"@)[i].name == "SAPISID"@
                || raw_cookies(raw, "youtube"@)[i].name == "LSID"@
                || raw_cookies(raw, "youtube"@)[i].name == "SIDCC"@) ==> has_cookie(
                raw_cookies(raw, "youtube"@),
                raw_cookies(raw, "youtube"@)[i].name,
                raw_cookies(raw, "youtube"@)[i].value,
                ".google.com"@,
            ),
        forall|j: int|
            0 <= j < raw_cookies(raw, "youtube"@).len() && (#[trigger] raw_cookies(raw, "youtube"@)[j]).domain
                == ".google.com"@ ==> (raw_cookies(raw, "youtube"@)[j].name == "SID"@
                || raw_cookies(raw, "youtube"@)[j].name == "HSID"@ || raw_cookies(raw, "youtube"@)[j].name == "SSID"@
                || raw_cookies(raw, "youtube"@)[j].name == "APISID"@
                || raw_cookies(raw, "youtube"@)[j].name == "SAPISID"@
                || raw_cookies(raw, "youtube"@)[j].name == "LSID"@
                || raw_cookies(raw, "youtube"@)[j].name == "SIDCC"@) && has_cookie(
                raw_cookies(raw, "youtube"@),
                raw_cookies(raw, "youtube"@)[j].name,
                raw_cookies(raw, "youtube"@)[j].value,
                ".youtube.com"@,
            ),
{
    reveal_strlit("youtube");
    reveal_strlit(".youtube.com");
    reveal_strlit(".google.com");
    let pieces = split_cookie_text(raw, true);
    let entries = cookies_of(pieces, platform_domain("youtube"@));
    assert(platform_domain("youtube"@) == ".youtube.com"@) by {
        reveal_strlit("netease");
        reveal_strlit("bilibili");
        assert("netease"@[0] != "youtube"@[0]);
        assert("bilibili"@.len() != "youtube"@.len());
    }
    law_cookies_have_names(pieces, ".youtube.com"@);
    lemma_google_copies(entries);
    let g = google_copies(entries);
    let out = raw_cookies(raw, "youtube"@);
    assert(out == entries + g);
    assert(".google.com"@ != ".youtube.com"@) by {
        assert(".google.com"@.len() != ".youtube.com"@.len());
    }
    assert forall|i: int|
        0 <= i < out.len() && (#[trigger] out[i]).domain == ".youtube.com"@ && (out[i].name == "SID"@
            || out[i].name == "HSID"@ || out[i].name == "SSID"@ || out[i].name == "APISID"@
            || out[i].name == "SAPISID"@ || out[i].name == "LSID"@ || out[i].name == "SIDCC"@) implies has_cookie(
        out,
        out[i].name,
        out[i].value,
        ".google.com"@,
    ) by {
        if i < entries.len() {
            assert(out[i] == entries[i]);
            assert(is_google_session_cookie(entries[i].name));
            let j = choose|j: int| 0 <= j < g.len() && (#[trigger] g[j]).name == entries[i].name && g[j].value
                == entries[i].value && g[j].domain == ".google.com"@;
            assert(out[entries.len() + j] == g[j]);
        } else {
            assert(out[i] == g[i - entries.len()]);
        }
    }
    assert forall|j: int| 0 <= j < out.len() && (#[trigger] out[j]).domain == ".google.com"@ implies (out[j].name
        == "SID"@ || out[j].name == "HSID"@ || out[j].name == "SSID"@ || out[j].name == "APISID"@
        || out[j].name == "SAPISID"@ || out[j].name == "LSID"@ || out[j].name == "SIDCC"@) && has_cookie(
        out,
        out[j].name,
        out[j].value,
        ".youtube.com"@,
    ) by {
        if j < entries.len() {
            assert(out[j] == entries[j]);
        } else {
            let x = j - entries.len();
            assert(out[j] == g[x]);
            let k = choose|k: int| 0 <= k < entries.len() && (#[trigger] entries[k]).name == g[x].name && entries[k].value == g[x].value;
            assert(out[k] == entries[k]);
        }
    }
}

/// Pasted NetEase cookies are all kept for `music.163.com`, and pasted
/// Bilibili cookies all for `.bilibili.com`; each has a name.
pub proof fn law_pasted_cookie_domains(raw: Seq<char>)
    ensures
        forall|i: int| 0 <= i < raw_cookies(raw, "netease"@).len() ==> (#[trigger] raw_cookies(raw, "netease"@)[i]).domain
            == "music.163.com"@ && raw_cookies(raw, "netease"@)[i].name.len() > 0,
        forall|i: int| 0 <= i < raw_cookies(raw, "bilibili"@).len() ==> (#[trigger] raw_cookies(raw, "bilibili"@)[i]).domain
            == ".bilibili.com"@ && raw_cookies(raw, "bilibili"@)[i].name.len() > 0,
{
    reveal_strlit("youtube");
    reveal_strlit("netease");
    reveal_strlit("bilibili");
    assert("netease"@ != "youtube"@) by {
        assert("netease"@[0] != "youtube"@[0]);
    }
    assert("bilibili"@ != "youtube"@) by {
        assert("bilibili"@.len() != "youtube"@.len());
    }
    assert("bilibili"@ != "netease"@) by {
        assert("bilibili"@.len() != "netease"@.len());
    }
    law_cookies_have_names(split_cookie_text(raw, true), "music.163.com"@);
    law_cookies_have_names(split_cookie_text(raw, true), ".bilibili.com"@);
}

} // verus!
