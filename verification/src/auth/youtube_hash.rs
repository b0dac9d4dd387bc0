use vstd::prelude::*;
use crate::clock::now_secs;
use crate::decimal::{i64_to_string, int_decimal};
use crate::digest::{hex_encode, hex_lower, lemma_hex_lower_len, sha1, sha1_digest};
use crate::text::{push_str, str_to_string};
use vstd::utf8::encode_utf8;

verus! {

/// The hexadecimal SHA-1 part of the hash text: 40 characters.
pub open spec fn sapisidhash_hex(timestamp: i64, sapisid: Seq<char>, origin: Seq<char>) -> Seq<char> {
    hex_lower(sha1_digest(encode_utf8(sapisidhash_input(timestamp, sapisid, origin))))
}

/// The text that is hashed: `<timestamp> <sapisid> <origin>`.
pub open spec fn sapisidhash_input(timestamp: i64, sapisid: Seq<char>, origin: Seq<char>) -> Seq<char> {
    int_decimal(timestamp as int) + " "@ + sapisid + " "@ + origin
}

/// `SAPISIDHASH <timestamp>_<hex SHA-1 of the input>`.
pub open spec fn sapisidhash_text(timestamp: i64, sapisid: Seq<char>, origin: Seq<char>) -> Seq<char> {
    "SAPISIDHASH "@ + int_decimal(timestamp as int) + "_"@ + sapisidhash_hex(timestamp, sapisid, origin)
}

/// The `Authorization` value for YouTube at the given time (seconds since
/// the epoch).
pub fn compute_sapisidhash_at(timestamp: i64, sapisid: &str, origin: &str) -> (r: String)
    ensures
        r@ == sapisidhash_text(timestamp, sapisid@, origin@),
        sapisidhash_hex(timestamp, sapisid@, origin@).len() == 40,
{
    let ts = i64_to_string(timestamp);
    let mut input = ts.clone();
    push_str(&mut input, " ");
    push_str(&mut input, sapisid);
    push_str(&mut input, " ");
    push_str(&mut input, origin);
    let hash = sha1(input.as_str().as_bytes());
    proof {
        lemma_hex_lower_len(hash@);
    }
    let hex = hex_encode(hash.as_slice());
    let mut r = str_to_string("SAPISIDHASH ");
    push_str(&mut r, ts.as_str());
    push_str(&mut r, "_");
    push_str(&mut r, hex.as_str());
    r
}

/// The `Authorization` value for YouTube now.
pub fn compute_sapisidhash(sapisid: &str, origin: &str) -> (r: String)
    ensures
        exists|t: i64|
            r@ == #[trigger] sapisidhash_text(t, sapisid@, origin@) && sapisidhash_hex(t, sapisid@, origin@).len() == 40,
{
    let t = now_secs();
    compute_sapisidhash_at(t, sapisid, origin)
}

/// The origin of YouTube Music.
pub open spec fn youtube_origin() -> Seq<char> {
    "https://music.youtube.com"@
}

/// The headers of an authenticated YouTube Music request: the
/// `Authorization` hash for the YouTube Music origin, the account index 0,
/// the cookies, and the origin twice.
pub fn build_youtube_auth_headers(sapisid: &str, cookie_header: &str) -> (r: Vec<(&'static str, String)>)
    ensures
        r@.len() == 5,
        r@[0].0@ == "Authorization"@,
        exists|t: i64| r@[0].1@ == #[trigger] sapisidhash_text(t, sapisid@, youtube_origin()),
        r@[1].0@ == "X-Goog-AuthUser"@ && r@[1].1@ == "0"@,
        r@[2].0@ == "Cookie"@ && r@[2].1@ == cookie_header@,
        r@[3].0@ == "Origin"@ && r@[3].1@ == youtube_origin(),
        r@[4].0@ == "X-Origin"@ && r@[4].1@ == youtube_origin(),
{
    let origin = "https://music.youtube.com";
    let auth = compute_sapisidhash(sapisid, origin);
    let mut r: Vec<(&'static str, String)> = Vec::new();
    r.push(("Authorization", auth));
    r.push(("X-Goog-AuthUser", str_to_string("0")));
    r.push(("Cookie", str_to_string(cookie_header)));
    r.push(("Origin", str_to_string(origin)));
    r.push(("X-Origin", str_to_string(origin)));
    proof {
        let t = choose|t: i64| r@[0].1@ == #[trigger] sapisidhash_text(t, sapisid@, origin@);
        assert(r@[0].1@ == sapisidhash_text(t, sapisid@, youtube_origin()));
    }
    r
}

} // verus!
