use neri_player_desktop::auth::youtube_hash::{build_youtube_auth_headers, compute_sapisidhash, compute_sapisidhash_at};

#[test]
fn test_sapisidhash_format() {
    let result = compute_sapisidhash("test_sapisid", "https://music.youtube.com");
    assert!(result.starts_with("SAPISIDHASH "));
    let parts: Vec<&str> = result["SAPISIDHASH ".len()..].split('_').collect();
    assert_eq!(parts.len(), 2);
    assert!(parts[0].parse::<i64>().is_ok());
    assert_eq!(parts[1].len(), 40);
}

#[test]
fn sapisidhash_at_known_time_is_sha1_of_input() {
    let result = compute_sapisidhash_at(1700000000, "test_sapisid", "https://music.youtube.com");
    assert_eq!(result, "SAPISIDHASH 1700000000_34f6546f99ec18cec46e50e842f2dab45b9d2d7d");
}

#[test]
fn youtube_headers_carry_hash_cookie_and_origin() {
    let headers = build_youtube_auth_headers("abc", "SAPISID=abc; SID=x");
    assert_eq!(headers.len(), 5);
    assert_eq!(headers[0].0, "Authorization");
    assert!(headers[0].1.starts_with("SAPISIDHASH "));
    assert_eq!(headers[1], ("X-Goog-AuthUser", "0".to_string()));
    assert_eq!(headers[2], ("Cookie", "SAPISID=abc; SID=x".to_string()));
    assert_eq!(headers[3], ("Origin", "https://music.youtube.com".to_string()));
    assert_eq!(headers[4], ("X-Origin", "https://music.youtube.com".to_string()));
}
