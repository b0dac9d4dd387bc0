use vstd::prelude::*;
use crate::auth::state::{
    AuthInfo, AuthState, BiliAuth, CookieEntry, CookieView, NeteaseAuth, YouTubeAuth, cookie_views, first_named,
    has_cookie_with_value, summarises_login,
};
use crate::decimal::{parse_u64, spec_parse_u64};
use crate::error::AppError;
use crate::sync::models::copy_opt_string;
use crate::text::{push_str, str_eq, str_to_string};

verus! {

// ===== cookies read from a login window =====

/// Some cookie before position `i` has the name and domain of cookie `i`.
pub open spec fn repeats_earlier(cs: Seq<CookieView>, i: int) -> bool {
    exists|j: int| 0 <= j < i && (#[trigger] cs[j]).name == cs[i].name && cs[j].domain == cs[i].domain
}

/// The cookies of `cs` with the first of each name and domain kept, in order.
pub open spec fn first_per_name_and_domain(cs: Seq<CookieView>, n: nat) -> Seq<CookieView>
    decreases n,
{
    if n == 0 {
        Seq::empty()
    } else {
        let rest = first_per_name_and_domain(cs, (n - 1) as nat);
        if repeats_earlier(cs, n - 1) { rest } else { rest.push(cs[n - 1]) }
    }
}

fn repeats_earlier_exec(cs: &Vec<CookieEntry>, i: usize) -> (r: bool)
    requires
        i < cs@.len(),
    ensures
        r == repeats_earlier(cookie_views(cs@), i as int),
{
    let ghost v = cookie_views(cs@);
    let mut j: usize = 0;
    while j < i
        invariant
            i < cs@.len(),
            j <= i,
            v == cookie_views(cs@),
            forall|k: int| 0 <= k < j ==> !((#[trigger] v[k]).name == v[i as int].name && v[k].domain == v[i as int].domain),
        decreases i - j,
    {
        if str_eq(cs[j].name.as_str(), cs[i].name.as_str()) && str_eq(cs[j].domain.as_str(), cs[i].domain.as_str()) {
            assert(v[j as int].name == v[i as int].name && v[j as int].domain == v[i as int].domain);
            return true;
        }
        j = j + 1;
    }
    false
}

/// The cookies read in one poll of a login window, each name and domain
/// once, and whether the sentinel cookie is there with a value.
pub fn collect_polled_cookies(read: &Vec<CookieEntry>, sentinel: &str) -> (r: (Vec<CookieEntry>, bool))
    ensures
        cookie_views(r.0@) == first_per_name_and_domain(cookie_views(read@), read@.len()),
        r.1 == has_cookie_with_value(cookie_views(read@), sentinel@),
{
    let ghost v = cookie_views(read@);
    let mut out: Vec<CookieEntry> = Vec::new();
    let mut found = false;
    let mut i: usize = 0;
    while i < read.len()
        invariant
            i <= read@.len(),
            v == cookie_views(read@),
            cookie_views(out@) == first_per_name_and_domain(v, i as nat),
            found == exists|k: int| 0 <= k < i && (#[trigger] v[k]).name == sentinel@ && v[k].value.len() > 0,
        decreases read@.len() - i,
    {
        if str_eq(read[i].name.as_str(), sentinel) && !read[i].value.as_str().is_empty() {
            found = true;
        }
        if !repeats_earlier_exec(read, i) {
            let c = read[i].clone();
            let ghost prev = out@;
            out.push(c);
            assert(cookie_views(out@) =~= cookie_views(prev).push(c@));
        }
        i = i + 1;
    }
    (out, found)
}

/// Whether polling a login window is done: the sentinel cookie came and
/// there are cookies to keep.
pub fn poll_complete(entries: &Vec<CookieEntry>, found_sentinel: bool) -> (r: bool)
    ensures
        r == (found_sentinel && entries@.len() > 0),
{
    found_sentinel && entries.len() > 0
}

// ===== per-platform fixes =====

/// Some cookie of `cs` is named `name`.
pub open spec fn has_named(cs: Seq<CookieView>, name: Seq<char>) -> bool {
    exists|i: int| 0 <= i < cs.len() && (#[trigger] cs[i]).name == name
}

fn has_named_exec(cs: &Vec<CookieEntry>, name: &str) -> (r: bool)
    ensures
        r == has_named(cookie_views(cs@), name@),
{
    let mut i: usize = 0;
    while i < cs.len()
        invariant
            i <= cs@.len(),
            forall|k: int| 0 <= k < i ==> (#[trigger] cs@[k]).name@ != name@,
        decreases cs@.len() - i,
    {
        if str_eq(cs[i].name.as_str(), name) {
            assert(cookie_views(cs@)[i as int].name == name@);
            return true;
        }
        i = i + 1;
    }
    false
}

/// The NetEase cookies with the defaults `os=pc` and `appver=8.10.35` added
/// for `music.163.com` when missing.
pub open spec fn with_netease_defaults(cs: Seq<CookieView>) -> Seq<CookieView> {
    let a = if has_named(cs, "os"@) {
        cs
    } else {
        cs.push(CookieView { name: "os"@, value: "pc"@, domain: "music.163.com"@ })
    };
    if has_named(a, "appver"@) {
        a
    } else {
        a.push(CookieView { name: "appver"@, value: "8.10.35"@, domain: "music.163.com"@ })
    }
}

/// Adds the default NetEase cookies that are missing.
pub fn add_netease_defaults(entries: &mut Vec<CookieEntry>)
    ensures
        cookie_views(final(entries)@) == with_netease_defaults(cookie_views(old(entries)@)),
{
    if !has_named_exec(entries, "os") {
        let c = CookieEntry { name: str_to_string("os"), value: str_to_string("pc"), domain: str_to_string("music.163.com") };
        let ghost prev = entries@;
        entries.push(c);
        assert(cookie_views(entries@) =~= cookie_views(prev).push(c@));
    }
    if !has_named_exec(entries, "appver") {
        let c = CookieEntry {
            name: str_to_string("appver"),
            value: str_to_string("8.10.35"),
            domain: str_to_string("music.163.com"),
        };
        let ghost prev = entries@;
        entries.push(c);
        assert(cookie_views(entries@) =~= cookie_views(prev).push(c@));
    }
}

/// The Bilibili cookies that the API subdomains need.
pub open spec fn is_bili_core_cookie(name: Seq<char>) -> bool {
    name == "SESSDATA"@ || name == "DedeUserID"@ || name == "DedeUserID__ckMd5"@ || name == "bili_jct"@ || name
        == "sid"@
}

/// A cookie moved to `.bilibili.com` when it is a core cookie whose domain
/// does not start with a dot.
pub open spec fn bili_domain_fixed(c: CookieView) -> CookieView {
    if is_bili_core_cookie(c.name) && !(c.domain.len() > 0 && c.domain[0] == '.') {
        CookieView { domain: ".bilibili.com"@, ..c }
    } else {
        c
    }
}

/// Moves the Bilibili core cookies to `.bilibili.com`.
pub fn fix_bilibili_domains(entries: &mut Vec<CookieEntry>)
    ensures
        cookie_views(final(entries)@) == cookie_views(old(entries)@).map_values(|c: CookieView| bili_domain_fixed(c)),
{
    let ghost start = cookie_views(entries@);
    let mut i: usize = 0;
    while i < entries.len()
        invariant
            i <= entries@.len(),
            entries@.len() == start.len(),
            start == cookie_views(old(entries)@),
            forall|k: int| 0 <= k < i ==> (#[trigger] cookie_views(entries@)[k]) == bili_domain_fixed(start[k]),
            forall|k: int| i <= k < entries@.len() ==> (#[trigger] cookie_views(entries@)[k]) == start[k],
        decreases entries@.len() - i,
    {
        let name = entries[i].name.as_str();
        let core = str_eq(name, "SESSDATA") || str_eq(name, "DedeUserID") || str_eq(name, "DedeUserID__ckMd5")
            || str_eq(name, "bili_jct") || str_eq(name, "sid");
        let dotted = crate::text::starts_with_str(entries[i].domain.as_str(), ".");
        proof {
            assert(cookie_views(entries@)[i as int] == start[i as int]);
            reveal_strlit(".");
            assert("."@ =~= seq!['.']);
            let d = start[i as int].domain;
            assert(d == entries@[i as int].domain@);
            if d.len() > 0 {
                assert(d.subrange(0, 1) =~= seq![d[0]]);
            }
            assert(dotted == ("."@.len() <= d.len() && d.subrange(0, "."@.len() as int) == "."@));
            assert("."@.len() == 1);
            if dotted {
                assert(d.len() >= 1);
                assert(d.subrange(0, 1) == "."@);
                assert(d.subrange(0, 1)[0] == d[0]);
                assert("."@[0] == '.');
            }
            assert(dotted == (d.len() > 0 && d[0] == '.'));
        }
        if core && !dotted {
            let mut c = entries[i].clone();
            c.domain = str_to_string(".bilibili.com");
            let ghost prev = entries@;
            entries.set(i, c);
            assert forall|k: int| 0 <= k < entries@.len() && k != i implies (#[trigger] cookie_views(entries@)[k])
                == cookie_views(prev)[k] by {}
        }
        i = i + 1;
    }
    assert(cookie_views(entries@) =~= start.map_values(|c: CookieView| bili_domain_fixed(c)));
}

/// The number that the first cookie named `name` holds, when it holds one.
pub open spec fn cookie_number(cs: Seq<CookieView>, name: Seq<char>) -> Option<u64> {
    match first_named(cs, name) {
        Some(k) => spec_parse_u64(cs[k].value),
        None => None,
    }
}

/// The Bilibili user id from the `DedeUserID` cookie.
pub fn cookie_u64(entries: &Vec<CookieEntry>, name: &str) -> (r: Option<u64>)
    ensures
        r == cookie_number(cookie_views(entries@), name@),
{
    match crate::auth::state::find_named_pub(entries, name) {
        Some(k) => parse_u64(entries[k].value.as_str()),
        None => None,
    }
}

// ===== pasted cookies and logout =====

/// The cookie a platform's pasted cookies must have, with a value.
pub open spec fn required_cookie(platform: Seq<char>) -> Option<Seq<char>> {
    if platform == "netease"@ {
        Some("MUSIC_U"@)
    } else if platform == "bilibili"@ {
        Some("SESSDATA"@)
    } else if platform == "youtube"@ {
        Some("SAPISID"@)
    } else {
        None
    }
}

/// The error with message `m` of kind `Other`.
pub open spec fn is_other_error(e: AppError, m: Seq<char>) -> bool {
    e matches AppError::Other(x) && x@ == m
}

/// Checks pasted cookies before they are kept: some cookies, a known
/// platform, and its required cookie with a value.
pub fn check_pasted_cookies(platform: &str, entries: &Vec<CookieEntry>) -> (r: Result<(), AppError>)
    ensures
        entries@.len() == 0 ==> (r matches Err(e) && is_other_error(e, "No valid cookies found"@)),
        entries@.len() > 0 ==> match required_cookie(platform@) {
            Some(c) => if has_cookie_with_value(cookie_views(entries@), c) {
                r is Ok
            } else {
                r matches Err(e) && is_other_error(e, "Missing required cookie: "@ + c)
            },
            None => r matches Err(e) && is_other_error(e, "Unknown platform: "@ + platform@),
        },
{
    if entries.len() == 0 {
        return Err(AppError::Other(str_to_string("No valid cookies found")));
    }
    let required = if str_eq(platform, "netease") {
        "MUSIC_U"
    } else if str_eq(platform, "bilibili") {
        "SESSDATA"
    } else if str_eq(platform, "youtube") {
        "SAPISID"
    } else {
        let mut m = str_to_string("Unknown platform: ");
        push_str(&mut m, platform);
        return Err(AppError::Other(m));
    };
    if crate::auth::state::has_cookie_with_value_pub(entries, required) {
        Ok(())
    } else {
        let mut m = str_to_string("Missing required cookie: ");
        push_str(&mut m, required);
        Err(AppError::Other(m))
    }
}

/// Forgets the credentials of a platform; an unknown platform is refused.
pub fn clear_platform(auth: &mut AuthState, platform: &str) -> (r: Result<(), AppError>)
    ensures
        platform@ == "netease"@ ==> r is Ok && final(auth).netease is None && final(auth).bilibili == old(auth).bilibili
            && final(auth).youtube == old(auth).youtube,
        platform@ != "netease"@ && platform@ == "bilibili"@ ==> r is Ok && final(auth).bilibili is None
            && final(auth).netease == old(auth).netease && final(auth).youtube == old(auth).youtube,
        platform@ != "netease"@ && platform@ != "bilibili"@ && platform@ == "youtube"@ ==> r is Ok
            && final(auth).youtube is None && final(auth).netease == old(auth).netease && final(auth).bilibili == old(
            auth,
        ).bilibili,
        platform@ != "netease"@ && platform@ != "bilibili"@ && platform@ != "youtube"@ ==> (r matches Err(e)
            && is_other_error(e, "Unknown platform: "@ + platform@)) && *final(auth) == *old(auth),
{
    if str_eq(platform, "netease") {
        auth.netease = None;
        Ok(())
    } else if str_eq(platform, "bilibili") {
        auth.bilibili = None;
        Ok(())
    } else if str_eq(platform, "youtube") {
        auth.youtube = None;
        Ok(())
    } else {
        let mut m = str_to_string("Unknown platform: ");
        push_str(&mut m, platform);
        Err(AppError::Other(m))
    }
}

/// The summary of a platform that has just logged in.
pub fn logged_in_info(platform: &str, nickname: &Option<String>, avatar_url: &Option<String>) -> (r: AuthInfo)
    ensures
        summarises_login(r, platform@, true, *nickname, *avatar_url),
{
    AuthInfo {
        platform: str_to_string(platform),
        logged_in: true,
        nickname: copy_opt_string(nickname),
        avatar_url: copy_opt_string(avatar_url),
    }
}

/// Keeps the credentials of a platform whose pasted cookies were accepted,
/// and gives the summary of the login. NetEase keeps the cookies with the
/// account's user id, nickname and avatar; Bilibili keeps the cookies with
/// the nickname and avatar, and the user id that its `DedeUserID` cookie
/// holds; YouTube keeps the cookies alone. An unknown platform is refused
/// and nothing changes.
pub fn record_cookie_login(
    auth: &mut AuthState,
    platform: &str,
    cookies: Vec<CookieEntry>,
    user_id: Option<u64>,
    nickname: Option<String>,
    avatar_url: Option<String>,
) -> (r: Result<AuthInfo, AppError>)
    ensures
        platform@ == "netease"@ ==> (r matches Ok(info) && summarises_login(info, platform@, true, nickname, avatar_url))
            && final(auth).netease == Some((NeteaseAuth { cookies, user_id, nickname, avatar_url }))
            && final(auth).bilibili == old(auth).bilibili && final(auth).youtube == old(auth).youtube,
        platform@ != "netease"@ && platform@ == "bilibili"@ ==> (r matches Ok(info) && summarises_login(
            info,
            platform@,
            true,
            nickname,
            avatar_url,
        )) && final(auth).bilibili == Some(
            (BiliAuth { cookies, mid: cookie_number(cookie_views(cookies@), "DedeUserID"@), nickname, avatar_url }),
        ) && final(auth).netease == old(auth).netease && final(auth).youtube == old(auth).youtube,
        platform@ != "netease"@ && platform@ != "bilibili"@ && platform@ == "youtube"@ ==> (r matches Ok(info)
            && summarises_login(info, platform@, true, None, None)) && final(auth).youtube == Some(
            (YouTubeAuth { cookies, nickname: None, avatar_url: None }),
        ) && final(auth).netease == old(auth).netease && final(auth).bilibili == old(auth).bilibili,
        platform@ != "netease"@ && platform@ != "bilibili"@ && platform@ != "youtube"@ ==> (r matches Err(e)
            && is_other_error(e, "Unknown platform: "@ + platform@)) && *final(auth) == *old(auth),
{
    if str_eq(platform, "netease") {
        let info = logged_in_info(platform, &nickname, &avatar_url);
        auth.netease = Some(NeteaseAuth { cookies, user_id, nickname, avatar_url });
        Ok(info)
    } else if str_eq(platform, "bilibili") {
        let info = logged_in_info(platform, &nickname, &avatar_url);
        let mid = cookie_u64(&cookies, "DedeUserID");
        auth.bilibili = Some(BiliAuth { cookies, mid, nickname, avatar_url });
        Ok(info)
    } else if str_eq(platform, "youtube") {
        let info = logged_in_info(platform, &None, &None);
        auth.youtube = Some(YouTubeAuth { cookies, nickname: None, avatar_url: None });
        Ok(info)
    } else {
        let mut m = str_to_string("Unknown platform: ");
        push_str(&mut m, platform);
        Err(AppError::Other(m))
    }
}

} // verus!
