use neri_player_desktop::netease_crypto::{eapi_decrypt, eapi_encrypt, linux_encrypt, weapi_encrypt, weapi_encrypt_with_key};

fn unhex(s: &str) -> Vec<u8> {
    (0..s.len()).step_by(2).map(|i| u8::from_str_radix(&s[i..i + 2], 16).unwrap()).collect()
}

#[test]
fn eapi_request_decrypts_to_its_json() {
    let url = "/api/song/enhance/player/url";
    let json = "{\"ids\":\"[1]\",\"br\":999000}";
    let hex = eapi_encrypt(url, json);
    assert!(hex.chars().all(|c| c.is_ascii_digit() || ('A'..='F').contains(&c)));
    assert_eq!(hex.len() % 32, 0);
    assert_eq!(eapi_decrypt(&unhex(&hex)), Some(json.to_string()));
}

#[test]
fn eapi_decrypt_refuses_partial_blocks_and_empty_input() {
    assert_eq!(eapi_decrypt(&[]), None);
    assert_eq!(eapi_decrypt(&[1, 2, 3]), None);
}

#[test]
fn linux_request_is_lowercase_hex_of_whole_blocks() {
    let a = linux_encrypt("{}");
    assert_eq!(a.len(), 32);
    assert!(a.chars().all(|c| c.is_ascii_digit() || ('a'..='f').contains(&c)));
    assert_eq!(linux_encrypt("0123456789abcdef").len(), 64);
    assert_eq!(a, linux_encrypt("{}"));
}

#[test]
fn weapi_key_is_padded_rsa_of_the_reversed_key() {
    let key = b"abcdefghijklmnop".to_vec();
    let (params, enc) = weapi_encrypt_with_key("{\"s\":\"x\"}", &key);
    assert_eq!(enc.len(), 256);
    assert!(enc.chars().all(|c| c.is_ascii_digit() || ('a'..='f').contains(&c)));
    assert!(params.chars().all(|c| c.is_ascii_alphanumeric() || c == '+' || c == '/' || c == '='));
    let (params2, enc2) = weapi_encrypt_with_key("{\"s\":\"x\"}", &key);
    assert_eq!(params, params2);
    assert_eq!(enc, enc2);
}

#[test]
fn weapi_with_random_key_gives_well_formed_fields() {
    let (params, enc) = weapi_encrypt("{}");
    assert_eq!(enc.len(), 256);
    assert!(!params.is_empty());
}

#[test]
fn eapi_round_trip_needs_parts_that_do_not_run_into_the_separator() {
    let json = "{}";
    let clean = eapi_encrypt("/api/a-b", json);
    assert_eq!(eapi_decrypt(&unhex(&clean)), Some(json.to_string()));
    let runs_in = eapi_encrypt("a-36cd479b6b5", json);
    assert_eq!(eapi_decrypt(&unhex(&runs_in)), Some("36cd479b6b5-{}".to_string()));
}
