use neri_player_desktop::wbi::{get_mixin_key, sign_params, sign_params_at};

fn params(pairs: &[(&str, &str)]) -> Vec<(String, String)> {
    pairs.iter().map(|(k, v)| (k.to_string(), v.to_string())).collect()
}

#[test]
fn mixin_key_of_documented_keys() {
    let key = get_mixin_key("7cd084941338484aae1ad9425b84077c", "4932caff0ff746eab6f01bf08b70ac45");
    assert_eq!(key, "ea1db124af3c7062474693fa704f4ff8");
}

#[test]
fn mixin_key_of_short_keys_skips_missing_positions() {
    let key = get_mixin_key("abc", "def");
    assert_eq!(key, "cdfabe");
}

#[test]
fn signing_documented_example() {
    let mut p = params(&[("bar", "514"), ("foo", "114"), ("zab", "1919810")]);
    let query = sign_params_at(&mut p, "ea1db124af3c7062474693fa704f4ff8", 1702204169);
    assert_eq!(query, "bar=514&foo=114&w_rid=8f6f2b5b3d485fe1886cec6a0be8c5d4&wts=1702204169&zab=1919810");
    assert_eq!(
        p,
        params(&[
            ("bar", "514"),
            ("foo", "114"),
            ("w_rid", "8f6f2b5b3d485fe1886cec6a0be8c5d4"),
            ("wts", "1702204169"),
            ("zab", "1919810"),
        ])
    );
}

#[test]
fn signing_percent_encodes_and_cleans_values() {
    let mut p = params(&[("a", "x y!*")]);
    let query = sign_params_at(&mut p, "k", 5);
    assert_eq!(query, "a=x%20y&w_rid=4bf39cc5453d1cefc32aacdc46b04be8&wts=5");
    assert_eq!(p[0], ("a".to_string(), "x y!*".to_string()));
    assert_eq!(p[1], ("w_rid".to_string(), "4bf39cc5453d1cefc32aacdc46b04be8".to_string()));
    assert_eq!(p[2], ("wts".to_string(), "5".to_string()));
}

#[test]
fn signing_now_sets_wts_and_rid() {
    let mut p = params(&[("foo", "1")]);
    let query = sign_params(&mut p, "key");
    assert!(query.starts_with("foo=1&w_rid="));
    assert!(query.contains(&format!("&wts={}", p[2].1)));
    assert_eq!(p.len(), 3);
    assert_eq!(p[1].0, "w_rid");
    assert_eq!(p[1].1.len(), 32);
    assert_eq!(p[2].0, "wts");
    assert!(p[2].1.parse::<i64>().is_ok());
}

#[test]
fn signing_keeps_keys_sorted_and_unique() {
    let mut p = params(&[("a", "1"), ("wts", "old"), ("zz", "2")]);
    let _ = sign_params_at(&mut p, "k", 7);
    let keys: Vec<&str> = p.iter().map(|(k, _)| k.as_str()).collect();
    assert_eq!(keys, vec!["a", "w_rid", "wts", "zz"]);
    assert!(keys.windows(2).all(|w| w[0] < w[1]));
    assert_eq!(p[2].1, "7");
}
