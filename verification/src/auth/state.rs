use vstd::prelude::*;
use crate::sync::models::copy_opt_string;
use crate::text::{str_eq, str_to_string};

verus! {

/// One stored cookie.
pub struct CookieEntry {
    pub name: String,
    pub value: String,
    pub domain: String,
}

/// A cookie as plain values.
pub struct CookieView {
    pub name: Seq<char>,
    pub value: Seq<char>,
    pub domain: Seq<char>,
}

impl View for CookieEntry {
    type V = CookieView;

    open spec fn view(&self) -> CookieView {
        CookieView { name: self.name@, value: self.value@, domain: self.domain@ }
    }
}

impl Clone for CookieEntry {
    fn clone(&self) -> (r: Self)
        ensures
            r@ == self@,
    {
        CookieEntry { name: self.name.clone(), value: self.value.clone(), domain: self.domain.clone() }
    }
}

/// The views of a list of cookies.
pub open spec fn cookie_views(cs: Seq<CookieEntry>) -> Seq<CookieView> {
    cs.map_values(|c: CookieEntry| c@)
}

/// Copy of a list of cookies.
pub fn clone_cookies(v: &Vec<CookieEntry>) -> (r: Vec<CookieEntry>)
    ensures
        cookie_views(r@) == cookie_views(v@),
{
    let mut r: Vec<CookieEntry> = Vec::new();
    let mut i: usize = 0;
    while i < v.len()
        invariant
            i <= v@.len(),
            cookie_views(r@) == cookie_views(v@).take(i as int),
        decreases v@.len() - i,
    {
        let c = v[i].clone();
        let ghost prev = r@;
        r.push(c);
        assert(cookie_views(r@) =~= cookie_views(prev).push(c@));
        i = i + 1;
        assert(cookie_views(r@) =~= cookie_views(v@).take(i as int));
    }
    assert(cookie_views(v@).take(v@.len() as int) =~= cookie_views(v@));
    r
}

/// NetEase Cloud Music credentials.
pub struct NeteaseAuth {
    pub cookies: Vec<CookieEntry>,
    pub user_id: Option<u64>,
    pub nickname: Option<String>,
    pub avatar_url: Option<String>,
}

/// Bilibili credentials.
pub struct BiliAuth {
    pub cookies: Vec<CookieEntry>,
    pub mid: Option<u64>,
    pub nickname: Option<String>,
    pub avatar_url: Option<String>,
}

/// YouTube Music credentials.
pub struct YouTubeAuth {
    pub cookies: Vec<CookieEntry>,
    pub nickname: Option<String>,
    pub avatar_url: Option<String>,
}

/// The login state of the three platforms.
pub struct AuthState {
    pub netease: Option<NeteaseAuth>,
    pub bilibili: Option<BiliAuth>,
    pub youtube: Option<YouTubeAuth>,
}

impl Default for AuthState {
    fn default() -> (r: Self)
        ensures
            r.netease is None,
            r.bilibili is None,
            r.youtube is None,
    {
        AuthState { netease: None, bilibili: None, youtube: None }
    }
}

/// Some cookie of `cs` is named `name` and has a value.
pub open spec fn has_cookie_with_value(cs: Seq<CookieView>, name: Seq<char>) -> bool {
    exists|i: int| 0 <= i < cs.len() && (#[trigger] cs[i]).name == name && cs[i].value.len() > 0
}

fn has_cookie_with_value_exec(cs: &Vec<CookieEntry>, name: &str) -> (r: bool)
    ensures
        r == has_cookie_with_value(cookie_views(cs@), name@),
{
    let ghost v = cookie_views(cs@);
    let mut i: usize = 0;
    while i < cs.len()
        invariant
            i <= cs@.len(),
            v == cookie_views(cs@),
            forall|k: int| 0 <= k < i ==> !((#[trigger] v[k]).name == name@ && v[k].value.len() > 0),
        decreases cs@.len() - i,
    {
        if str_eq(cs[i].name.as_str(), name) && !cs[i].value.as_str().is_empty() {
            assert(v[i as int].name == name@ && v[i as int].value.len() > 0);
            return true;
        }
        i = i + 1;
    }
    false
}

/// Whether some cookie named `name` has a value.
pub fn has_cookie_with_value_pub(cs: &Vec<CookieEntry>, name: &str) -> (r: bool)
    ensures
        r == has_cookie_with_value(cookie_views(cs@), name@),
{
    has_cookie_with_value_exec(cs, name)
}

impl NeteaseAuth {
    /// Logged in: a `MUSIC_U` cookie with a value.
    pub fn has_login(&self) -> (r: bool)
        ensures
            r == has_cookie_with_value(cookie_views(self.cookies@), "MUSIC_U"@),
    {
        has_cookie_with_value_exec(&self.cookies, "MUSIC_U")
    }
}

impl BiliAuth {
    /// Logged in: a `SESSDATA` cookie with a value.
    pub fn has_login(&self) -> (r: bool)
        ensures
            r == has_cookie_with_value(cookie_views(self.cookies@), "SESSDATA"@),
    {
        has_cookie_with_value_exec(&self.cookies, "SESSDATA")
    }
}

/// The first position of a cookie named `name`.
pub open spec fn first_named(cs: Seq<CookieView>, name: Seq<char>) -> Option<int>
    decreases cs.len(),
{
    if cs.len() == 0 {
        None
    } else {
        match first_named(cs.drop_last(), name) {
            Some(k) => Some(k),
            None => if cs.last().name == name { Some(cs.len() - 1) } else { None },
        }
    }
}

proof fn lemma_first_named(cs: Seq<CookieView>, name: Seq<char>)
    ensures
        match first_named(cs, name) {
            Some(k) => 0 <= k < cs.len() && cs[k].name == name && forall|j: int| 0 <= j < k ==> cs[j].name != name,
            None => forall|j: int| 0 <= j < cs.len() ==> cs[j].name != name,
        },
    decreases cs.len(),
{
    if cs.len() > 0 {
        lemma_first_named(cs.drop_last(), name);
        assert forall|j: int| 0 <= j < cs.len() - 1 implies cs.drop_last()[j] == cs[j] by {}
    }
}

fn find_named(cs: &Vec<CookieEntry>, name: &str) -> (r: Option<usize>)
    ensures
        match r {
            Some(k) => k < cs@.len() && first_named(cookie_views(cs@), name@) == Some(k as int),
            None => first_named(cookie_views(cs@), name@) is None,
        },
{
    let ghost v = cookie_views(cs@);
    proof {
        lemma_first_named(v, name@);
    }
    let mut i: usize = 0;
    while i < cs.len()
        invariant
            i <= cs@.len(),
            v == cookie_views(cs@),
            forall|j: int| 0 <= j < i ==> (#[trigger] cs@[j]).name@ != name@,
        decreases cs@.len() - i,
    {
        if str_eq(cs[i].name.as_str(), name) {
            proof {
                lemma_first_named(v, name@);
                match first_named(v, name@) {
                    Some(k) => {
                        assert(v[i as int].name == name@);
                        assert(cs@[k].name@ == name@);
                    },
                    None => {
                        assert(v[i as int].name == name@);
                    },
                }
            }
            return Some(i);
        }
        i = i + 1;
    }
    proof {
        match first_named(v, name@) {
            Some(k) => {
                assert(cs@[k].name@ == name@);
            },
            None => {},
        }
    }
    None
}

/// The position of the first cookie named `name`.
pub fn find_named_pub(cs: &Vec<CookieEntry>, name: &str) -> (r: Option<usize>)
    ensures
        match r {
            Some(k) => k < cs@.len() && first_named(cookie_views(cs@), name@) == Some(k as int),
            None => first_named(cookie_views(cs@), name@) is None,
        },
{
    find_named(cs, name)
}

/// The SAPISID value of a cookie list: that of the first `SAPISID` cookie,
/// else that of the first `__Secure-3PAPISID` cookie.
pub open spec fn sapisid_of(cs: Seq<CookieView>) -> Option<Seq<char>> {
    match first_named(cs, "SAPISID"@) {
        Some(k) => Some(cs[k].value),
        None => match first_named(cs, "__Secure-3PAPISID"@) {
            Some(k) => Some(cs[k].value),
            None => None,
        },
    }
}

impl YouTubeAuth {
    /// Logged in: a `SAPISID` or `__Secure-3PAPISID` cookie with a value.
    pub fn has_login(&self) -> (r: bool)
        ensures
            r == (has_cookie_with_value(cookie_views(self.cookies@), "SAPISID"@) || has_cookie_with_value(
                cookie_views(self.cookies@),
                "__Secure-3PAPISID"@,
            )),
    {
        has_cookie_with_value_exec(&self.cookies, "SAPISID") || has_cookie_with_value_exec(
            &self.cookies,
            "__Secure-3PAPISID",
        )
    }

    /// The SAPISID value: that of the first `SAPISID` cookie, else that of the
    /// first `__Secure-3PAPISID` cookie.
    pub fn get_sapisid(&self) -> (r: Option<&str>)
        ensures
            match r {
                Some(v) => sapisid_of(cookie_views(self.cookies@)) == Some(v@),
                None => sapisid_of(cookie_views(self.cookies@)) is None,
            },
    {
        match find_named(&self.cookies, "SAPISID") {
            Some(k) => Some(self.cookies[k].value.as_str()),
            None => match find_named(&self.cookies, "__Secure-3PAPISID") {
                Some(k) => Some(self.cookies[k].value.as_str()),
                None => None,
            },
        }
    }
}

/// The login summary of one platform.
pub struct AuthInfo {
    pub platform: String,
    pub logged_in: bool,
    pub nickname: Option<String>,
    pub avatar_url: Option<String>,
}

/// The login summaries of the three platforms.
pub struct AuthStatusResponse {
    pub netease: AuthInfo,
    pub bilibili: AuthInfo,
    pub youtube: AuthInfo,
}

/// `i` summarises a platform named `platform` that is logged in as
/// `logged_in`, with a nickname and an avatar.
pub open spec fn summarises_login(
    i: AuthInfo,
    platform: Seq<char>,
    logged_in: bool,
    nickname: Option<String>,
    avatar_url: Option<String>,
) -> bool {
    &&& i.platform@ == platform
    &&& i.logged_in == logged_in
    &&& i.nickname == nickname
    &&& i.avatar_url == avatar_url
}

fn login_info(platform: &str, logged_in: bool, nickname: &Option<String>, avatar_url: &Option<String>) -> (r: AuthInfo)
    ensures
        summarises_login(r, platform@, logged_in, *nickname, *avatar_url),
{
    AuthInfo {
        platform: str_to_string(platform),
        logged_in,
        nickname: copy_opt_string(nickname),
        avatar_url: copy_opt_string(avatar_url),
    }
}

impl AuthState {
    /// The summary that the front end shows: for each platform whether it is
    /// logged in, with its nickname and avatar; a platform without
    /// credentials is logged out and has neither.
    pub fn to_status_response(&self) -> (r: AuthStatusResponse)
        ensures
            match self.netease {
                Some(a) => summarises_login(
                    r.netease,
                    "netease"@,
                    has_cookie_with_value(cookie_views(a.cookies@), "MUSIC_U"@),
                    a.nickname,
                    a.avatar_url,
                ),
                None => summarises_login(r.netease, "netease"@, false, None, None),
            },
            match self.bilibili {
                Some(a) => summarises_login(
                    r.bilibili,
                    "bilibili"@,
                    has_cookie_with_value(cookie_views(a.cookies@), "SESSDATA"@),
                    a.nickname,
                    a.avatar_url,
                ),
                None => summarises_login(r.bilibili, "bilibili"@, false, None, None),
            },
            match self.youtube {
                Some(a) => summarises_login(
                    r.youtube,
                    "youtube"@,
                    has_cookie_with_value(cookie_views(a.cookies@), "SAPISID"@) || has_cookie_with_value(
                        cookie_views(a.cookies@),
                        "__Secure-3PAPISID"@,
                    ),
                    a.nickname,
                    a.avatar_url,
                ),
                None => summarises_login(r.youtube, "youtube"@, false, None, None),
            },
    {
        let netease = match &self.netease {
            Some(a) => login_info("netease", a.has_login(), &a.nickname, &a.avatar_url),
            None => login_info("netease", false, &None, &None),
        };
        let bilibili = match &self.bilibili {
            Some(a) => login_info("bilibili", a.has_login(), &a.nickname, &a.avatar_url),
            None => login_info("bilibili", false, &None, &None),
        };
        let youtube = match &self.youtube {
            Some(a) => login_info("youtube", a.has_login(), &a.nickname, &a.avatar_url),
            None => login_info("youtube", false, &None, &None),
        };
        AuthStatusResponse { netease, bilibili, youtube }
    }
}

} // verus!
