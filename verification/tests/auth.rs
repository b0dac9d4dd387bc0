use neri_player_desktop::auth::cookies::{
    cookie_expirations, cookie_injections, domain_to_url, parse_document_cookies, parse_raw_cookie_text,
};
use neri_player_desktop::auth::login::{
    add_netease_defaults, check_pasted_cookies, clear_platform, collect_polled_cookies, cookie_u64, fix_bilibili_domains,
    record_cookie_login,
};
use neri_player_desktop::auth::state::{AuthState, BiliAuth, CookieEntry, NeteaseAuth, YouTubeAuth};

fn c(name: &str, value: &str, domain: &str) -> CookieEntry {
    CookieEntry { name: name.to_string(), value: value.to_string(), domain: domain.to_string() }
}

fn triples(cs: &[CookieEntry]) -> Vec<(String, String, String)> {
    cs.iter().map(|x| (x.name.clone(), x.value.clone(), x.domain.clone())).collect()
}

fn t(n: &str, v: &str, d: &str) -> (String, String, String) {
    (n.to_string(), v.to_string(), d.to_string())
}

#[test]
fn document_cookies_are_split_and_trimmed() {
    let cs = parse_document_cookies(" a=1 ; b = x=y ;noval; =z; c=", "example.com");
    assert_eq!(triples(&cs), vec![t("a", "1", "example.com"), t("b", "x=y", "example.com"), t("c", "", "example.com")]);
}

#[test]
fn pasted_cookies_split_on_lines_and_pick_domain() {
    let cs = parse_raw_cookie_text("MUSIC_U=abc\r\n__csrf=t;os=pc", "netease");
    assert_eq!(triples(&cs), vec![t("MUSIC_U", "abc", "music.163.com"), t("__csrf", "t", "music.163.com"), t("os", "pc", "music.163.com")]);
    let unknown = parse_raw_cookie_text("a=b", "other");
    assert_eq!(triples(&unknown), vec![t("a", "b", "unknown")]);
}

#[test]
fn pasted_youtube_cookies_are_copied_to_google() {
    let cs = parse_raw_cookie_text("SID=1; PREF=2; SAPISID=3", "youtube");
    assert_eq!(
        triples(&cs),
        vec![
            t("SID", "1", ".youtube.com"),
            t("PREF", "2", ".youtube.com"),
            t("SAPISID", "3", ".youtube.com"),
            t("SID", "1", ".google.com"),
            t("SAPISID", "3", ".google.com"),
        ]
    );
}

#[test]
fn urls_and_lines_for_the_jar() {
    assert_eq!(domain_to_url("..bilibili.com"), "https://bilibili.com");
    assert_eq!(domain_to_url("music.163.com"), "https://music.163.com");
    let set = cookie_injections(&vec![c("a", "1", ".x.com")]);
    assert_eq!(set, vec![("https://x.com".to_string(), "a=1; Domain=.x.com; Path=/".to_string())]);
    let expire = cookie_expirations(&vec![c("a", "1", ".x.com")]);
    assert_eq!(expire, vec![("https://x.com".to_string(), "a=deleted; Domain=.x.com; Path=/; Max-Age=0".to_string())]);
}

#[test]
fn login_checks_per_platform() {
    let n = NeteaseAuth { cookies: vec![c("MUSIC_U", "", "d")], user_id: None, nickname: None, avatar_url: None };
    assert!(!n.has_login());
    let n = NeteaseAuth { cookies: vec![c("MUSIC_U", "v", "d")], user_id: None, nickname: None, avatar_url: None };
    assert!(n.has_login());
    let b = BiliAuth { cookies: vec![c("SESSDATA", "s", "d")], mid: None, nickname: None, avatar_url: None };
    assert!(b.has_login());
    let y = YouTubeAuth { cookies: vec![c("__Secure-3PAPISID", "p", "d"), c("SAPISID", "s", "d")], nickname: None, avatar_url: None };
    assert!(y.has_login());
    assert_eq!(y.get_sapisid(), Some("s"));
    let y2 = YouTubeAuth { cookies: vec![c("__Secure-3PAPISID", "p", "d")], nickname: None, avatar_url: None };
    assert_eq!(y2.get_sapisid(), Some("p"));
    let y3 = YouTubeAuth { cookies: vec![], nickname: None, avatar_url: None };
    assert_eq!(y3.get_sapisid(), None);
}

#[test]
fn status_summary_of_all_platforms() {
    let mut auth = AuthState::default();
    auth.netease = Some(NeteaseAuth {
        cookies: vec![c("MUSIC_U", "v", "d")],
        user_id: Some(1),
        nickname: Some("nick".to_string()),
        avatar_url: None,
    });
    let r = auth.to_status_response();
    assert_eq!(r.netease.platform, "netease");
    assert!(r.netease.logged_in);
    assert_eq!(r.netease.nickname.as_deref(), Some("nick"));
    assert_eq!(r.bilibili.platform, "bilibili");
    assert!(!r.bilibili.logged_in);
    assert_eq!(r.youtube.platform, "youtube");
    assert!(!r.youtube.logged_in);
}

#[test]
fn polled_cookies_are_deduplicated() {
    let read = vec![c("MUSIC_U", "", "a"), c("x", "1", "a"), c("x", "2", "a"), c("x", "3", "b"), c("MUSIC_U", "v", "b")];
    let (cs, found) = collect_polled_cookies(&read, "MUSIC_U");
    assert!(found);
    assert_eq!(triples(&cs), vec![t("MUSIC_U", "", "a"), t("x", "1", "a"), t("x", "3", "b"), t("MUSIC_U", "v", "b")]);
}

#[test]
fn netease_defaults_and_bilibili_domains() {
    let mut cs = vec![c("os", "osx", "d")];
    add_netease_defaults(&mut cs);
    assert_eq!(triples(&cs), vec![t("os", "osx", "d"), t("appver", "8.10.35", "music.163.com")]);
    let mut b = vec![c("SESSDATA", "s", "www.bilibili.com"), c("bili_jct", "j", ".bilibili.com"), c("other", "o", "x")];
    fix_bilibili_domains(&mut b);
    assert_eq!(triples(&b), vec![t("SESSDATA", "s", ".bilibili.com"), t("bili_jct", "j", ".bilibili.com"), t("other", "o", "x")]);
    assert_eq!(cookie_u64(&vec![c("DedeUserID", "123", "d")], "DedeUserID"), Some(123));
    assert_eq!(cookie_u64(&vec![c("DedeUserID", "x", "d")], "DedeUserID"), None);
}

#[test]
fn pasted_cookie_errors() {
    assert_eq!(check_pasted_cookies("netease", &vec![]).err().unwrap().message(), "No valid cookies found");
    assert_eq!(check_pasted_cookies("netease", &vec![c("a", "b", "d")]).err().unwrap().message(), "Missing required cookie: MUSIC_U");
    assert!(check_pasted_cookies("bilibili", &vec![c("SESSDATA", "b", "d")]).is_ok());
    assert_eq!(check_pasted_cookies("qq", &vec![c("a", "b", "d")]).err().unwrap().message(), "Unknown platform: qq");
}

#[test]
fn logout_clears_one_platform() {
    let mut auth = AuthState::default();
    auth.youtube = Some(YouTubeAuth { cookies: vec![], nickname: None, avatar_url: None });
    assert!(clear_platform(&mut auth, "youtube").is_ok());
    assert!(auth.youtube.is_none());
    assert_eq!(clear_platform(&mut auth, "x").err().unwrap().message(), "Unknown platform: x");
}

#[test]
fn parsed_cookies_always_have_names() {
    let cs = parse_raw_cookie_text("=x; a=1;;  =;b=2\nnoequals\r\nSAPISID=s", "youtube");
    assert!(cs.iter().all(|c| !c.name.is_empty()));
    assert_eq!(
        triples(&cs),
        vec![t("a", "1", ".youtube.com"), t("b", "2", ".youtube.com"), t("SAPISID", "s", ".youtube.com"), t("SAPISID", "s", ".google.com")]
    );
    let doc = parse_document_cookies(" =v; k = w ", "x.com");
    assert!(doc.iter().all(|c| !c.name.is_empty()));
    assert_eq!(triples(&doc), vec![t("k", "w", "x.com")]);
}

#[test]
fn cookie_login_keeps_the_platform_credentials() {
    let mut auth = AuthState::default();
    let info = record_cookie_login(
        &mut auth,
        "netease",
        vec![c("MUSIC_U", "m", "music.163.com")],
        Some(42),
        Some("Nick".to_string()),
        None,
    )
    .unwrap();
    assert_eq!(info.platform, "netease");
    assert!(info.logged_in);
    assert_eq!(info.nickname.as_deref(), Some("Nick"));
    let ne = auth.netease.as_ref().unwrap();
    assert_eq!(ne.user_id, Some(42));
    assert_eq!(ne.cookies.len(), 1);
    assert!(auth.bilibili.is_none() && auth.youtube.is_none());

    let bili = vec![c("SESSDATA", "s", ".bilibili.com"), c("DedeUserID", "777", ".bilibili.com")];
    let info = record_cookie_login(&mut auth, "bilibili", bili, Some(1), None, Some("face".to_string())).unwrap();
    assert_eq!(info.avatar_url.as_deref(), Some("face"));
    let b = auth.bilibili.as_ref().unwrap();
    assert_eq!(b.mid, Some(777));
    assert_eq!(b.avatar_url.as_deref(), Some("face"));
    assert!(auth.netease.is_some());

    let info = record_cookie_login(&mut auth, "youtube", vec![c("SAPISID", "x", ".youtube.com")], None, Some("n".to_string()), None)
        .unwrap();
    assert!(info.nickname.is_none());
    let y = auth.youtube.as_ref().unwrap();
    assert!(y.nickname.is_none() && y.avatar_url.is_none());
    assert_eq!(y.cookies[0].name, "SAPISID");

    let err = record_cookie_login(&mut auth, "spotify", vec![], None, None, None).err().unwrap();
    assert_eq!(err.message(), "Unknown platform: spotify");
}
