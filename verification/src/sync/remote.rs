use vstd::prelude::*;
use vstd::utf8::{decode_utf8, encode_utf8, encode_utf8_decode_utf8, encode_utf8_valid_utf8, valid_utf8};
use crate::decimal::{nat_decimal, u64_to_string};
use crate::digest::{hex_encode, hex_lower, sha256, sha256_digest};
use crate::error::AppError;
use crate::sync::compact::{base64_decode, base64_encode, base64_standard, base64_standard_decoded, is_base64_char};
use crate::text::{contains_seq, contains_str, is_ws, is_ws_char, push_str, str_to_string, to_chars};

verus! {

// ===== GitHub =====

/// `String::from_utf8`: the text that valid UTF-8 encodes, or the text of
/// the error for invalid bytes.
#[verifier::external_body]
fn utf8_string(bytes: Vec<u8>) -> (r: Result<String, String>)
    ensures
        match r {
            Ok(s) => valid_utf8(bytes@) && s@ == decode_utf8(bytes@),
            Err(_) => !valid_utf8(bytes@),
        },
{
    String::from_utf8(bytes).map_err(|e| e.to_string())
}

/// `s` without its white space.
pub open spec fn without_ws(s: Seq<char>) -> Seq<char>
    decreases s.len(),
{
    if s.len() == 0 {
        s
    } else {
        let rest = without_ws(s.drop_last());
        if is_ws(s.last()) { rest } else { rest.push(s.last()) }
    }
}

/// The file content that the contents API gives in base64: white space
/// (GitHub breaks lines) removed, decoded, read as UTF-8; nothing when the
/// base64 or the UTF-8 is bad.
pub open spec fn spec_decoded_content(content_b64: Seq<char>) -> Option<Seq<char>> {
    match base64_standard_decoded(without_ws(content_b64)) {
        Ok(b) => if valid_utf8(b) { Some(decode_utf8(b)) } else { None },
        Err(_) => None,
    }
}

/// The text of a file from the base64 content that the contents API gives.
pub fn decode_file_content(content_b64: &str) -> (r: Result<String, AppError>)
    ensures
        match spec_decoded_content(content_b64@) {
            Some(t) => r matches Ok(s) && s@ == t,
            None => r is Err,
        },
        match base64_standard_decoded(without_ws(content_b64@)) {
            Err(m) => r matches Err(e) && e matches AppError::Other(x) && x@ == "Base64 decode error: "@ + m,
            Ok(_) => true,
        },
{
    let v = to_chars(content_b64);
    let mut cleaned = String::new();
    let mut i: usize = 0;
    while i < v.len()
        invariant
            i <= v@.len(),
            v@ == content_b64@,
            cleaned@ == without_ws(v@.take(i as int)),
        decreases v@.len() - i,
    {
        assert(v@.take(i + 1).drop_last() =~= v@.take(i as int));
        if !is_ws_char(v[i]) {
            cleaned.push(v[i]);
        }
        i = i + 1;
    }
    assert(v@.take(v@.len() as int) =~= v@);
    match base64_decode(cleaned.as_str()) {
        Ok(bytes) => match utf8_string(bytes) {
            Ok(s) => Ok(s),
            Err(m) => {
                let mut msg = str_to_string("UTF-8 decode error: ");
                push_str(&mut msg, m.as_str());
                Err(AppError::Other(msg))
            },
        },
        Err(m) => {
            let mut msg = str_to_string("Base64 decode error: ");
            push_str(&mut msg, m.as_str());
            Err(AppError::Other(msg))
        },
    }
}

/// The base64 form in which file content is uploaded.
pub fn encode_file_content(content: &str) -> (r: String)
    ensures
        r@ == base64_standard(encode_utf8(content@)),
{
    base64_encode(content.as_bytes())
}

/// `https://api.github.com/repos/<owner>/<repo>/contents/<path>`.
pub open spec fn spec_contents_url(owner: Seq<char>, repo: Seq<char>, path: Seq<char>) -> Seq<char> {
    "https://api.github.com/repos/"@ + owner + "/"@ + repo + "/contents/"@ + path
}

/// The contents API URL of a file of a repository.
pub fn contents_url(owner: &str, repo: &str, path: &str) -> (r: String)
    ensures
        r@ == spec_contents_url(owner@, repo@, path@),
{
    let mut r = str_to_string("https://api.github.com/repos/");
    push_str(&mut r, owner);
    push_str(&mut r, "/");
    push_str(&mut r, repo);
    push_str(&mut r, "/contents/");
    push_str(&mut r, path);
    r
}

/// The API URL of a repository.
pub fn repository_url(owner: &str, repo: &str) -> (r: String)
    ensures
        r@ == "https://api.github.com/repos/"@ + owner@ + "/"@ + repo@,
{
    let mut r = str_to_string("https://api.github.com/repos/");
    push_str(&mut r, owner);
    push_str(&mut r, "/");
    push_str(&mut r, repo);
    r
}

/// `Bearer <token>`.
pub fn bearer(token: &str) -> (r: String)
    ensures
        r@ == "Bearer "@ + token@,
{
    let mut r = str_to_string("Bearer ");
    push_str(&mut r, token);
    r
}

/// The outcome of creating a repository: success, or a repository that
/// exists already (422 with `already exists`), counts as created.
pub fn create_repo_outcome(status: u16, success: bool, text: &str) -> (r: Result<(), AppError>)
    ensures
        success ==> r is Ok,
        !success && status == 422 && contains_seq(text@, "already exists"@) ==> r is Ok,
        !success && !(status == 422 && contains_seq(text@, "already exists"@)) ==> (r matches Err(e) && (e matches AppError::Api(m)
            && m@ == "Failed to create repo ("@ + nat_decimal(status as nat) + "): "@ + text@)),
{
    if success {
        return Ok(());
    }
    if status == 422 && contains_str(text, "already exists") {
        return Ok(());
    }
    let mut m = str_to_string("Failed to create repo (");
    push_str(&mut m, u64_to_string(status as u64).as_str());
    push_str(&mut m, "): ");
    push_str(&mut m, text);
    Err(AppError::Api(m))
}

// ===== WebDAV =====

/// The name of the synchronised file on a WebDAV server.
pub open spec fn webdav_filename() -> Seq<char> {
    "neriplayer-sync.json"@
}

/// `s` without trailing `/`.
pub open spec fn trim_end_slashes(s: Seq<char>) -> Seq<char>
    decreases s.len(),
{
    if s.len() > 0 && s.last() == '/' { trim_end_slashes(s.drop_last()) } else { s }
}

/// `s` without leading `/`.
pub open spec fn trim_start_slashes(s: Seq<char>) -> Seq<char>
    decreases s.len(),
{
    if s.len() > 0 && s[0] == '/' { trim_start_slashes(s.drop_first()) } else { s }
}

/// The URL of the synchronised file: the server URL without trailing
/// slashes, the base path without surrounding slashes when there is one,
/// and the file name.
pub open spec fn spec_webdav_url(server_url: Seq<char>, base_path: Seq<char>) -> Seq<char> {
    let server = trim_end_slashes(server_url);
    if base_path.len() == 0 {
        server + "/"@ + webdav_filename()
    } else {
        server + "/"@ + trim_end_slashes(trim_start_slashes(base_path)) + "/"@ + webdav_filename()
    }
}

fn slash_bounds(v: &Vec<char>, trim_start: bool) -> (r: (usize, usize))
    ensures
        r.0 <= r.1 <= v@.len(),
        v@.subrange(r.0 as int, r.1 as int) == if trim_start {
            trim_end_slashes(trim_start_slashes(v@))
        } else {
            trim_end_slashes(v@)
        },
{
    let mut a: usize = 0;
    assert(v@.subrange(0, v@.len() as int) =~= v@);
    if trim_start {
        while a < v.len() && v[a] == '/'
            invariant
                a <= v@.len(),
                trim_start_slashes(v@.subrange(a as int, v@.len() as int)) == trim_start_slashes(v@),
            decreases v@.len() - a,
        {
            assert(v@.subrange(a as int, v@.len() as int).drop_first() =~= v@.subrange(a + 1, v@.len() as int));
            a = a + 1;
        }
    }
    let ghost start = v@.subrange(a as int, v@.len() as int);
    assert(trim_start ==> start == trim_start_slashes(v@));
    assert(!trim_start ==> start == v@);
    let mut b: usize = v.len();
    while b > a && v[b - 1] == '/'
        invariant
            a <= b <= v@.len(),
            trim_end_slashes(v@.subrange(a as int, b as int)) == trim_end_slashes(start),
        decreases b,
    {
        assert(v@.subrange(a as int, b as int).drop_last() =~= v@.subrange(a as int, b - 1));
        b = b - 1;
    }
    (a, b)
}

/// The URL of the synchronised file on a WebDAV server.
pub fn webdav_url(server_url: &str, base_path: &str) -> (r: String)
    ensures
        r@ == spec_webdav_url(server_url@, base_path@),
{
    let sv = to_chars(server_url);
    let (sa, sb) = slash_bounds(&sv, false);
    let mut r = crate::text::from_char_range(sv.as_slice(), sa, sb);
    push_str(&mut r, "/");
    if !base_path.is_empty() {
        let bv = to_chars(base_path);
        let (ba, bb) = slash_bounds(&bv, true);
        let bp = crate::text::from_char_range(bv.as_slice(), ba, bb);
        push_str(&mut r, bp.as_str());
        push_str(&mut r, "/");
    }
    push_str(&mut r, "neriplayer-sync.json");
    r
}

/// The fingerprint of synchronised content: its SHA-256 in lowercase
/// hexadecimal.
pub fn sha256_fingerprint(content: &str) -> (r: String)
    ensures
        r@ == hex_lower(sha256_digest(encode_utf8(content@))),
{
    let hash = sha256(content.as_bytes());
    hex_encode(hash.as_slice())
}

/// What a WebDAV status says of the connection: 200 and 404 mean it works.
pub fn webdav_connection_outcome(status: u16) -> (r: Result<(), AppError>)
    ensures
        (status == 200 || status == 404) ==> r is Ok,
        (status == 401 || status == 403) ==> (r matches Err(e) && (e matches AppError::Api(m) && m@
            == "WebDAV authentication failed"@)),
        !(status == 200 || status == 404 || status == 401 || status == 403) ==> (r matches Err(e) && (e matches AppError::Api(m)
            && m@ == "WebDAV connection failed ("@ + nat_decimal(status as nat) + ")"@)),
{
    if status == 200 || status == 404 {
        Ok(())
    } else if status == 401 || status == 403 {
        Err(AppError::Api(str_to_string("WebDAV authentication failed")))
    } else {
        let mut m = str_to_string("WebDAV connection failed (");
        push_str(&mut m, u64_to_string(status as u64).as_str());
        push_str(&mut m, ")");
        Err(AppError::Api(m))
    }
}


/// What a WebDAV status says of a download: `Ok(false)` for a file that is
/// not there (404), `Ok(true)` for a success.
pub fn webdav_get_outcome(status: u16, success: bool) -> (r: Result<bool, AppError>)
    ensures
        status == 404 ==> r == Ok::<bool, AppError>(false),
        status != 404 && (status == 401 || status == 403) ==> (r matches Err(e) && (e matches AppError::Api(m) && m@
            == "WebDAV authentication failed"@)),
        status != 404 && status != 401 && status != 403 && !success ==> (r matches Err(e) && (e matches AppError::Api(
            m,
        ) && m@ == "WebDAV GET failed ("@ + nat_decimal(status as nat) + ")"@)),
        status != 404 && status != 401 && status != 403 && success ==> r == Ok::<bool, AppError>(true),
{
    if status == 404 {
        return Ok(false);
    }
    if status == 401 || status == 403 {
        return Err(AppError::Api(str_to_string("WebDAV authentication failed")));
    }
    if !success {
        let mut m = str_to_string("WebDAV GET failed (");
        push_str(&mut m, u64_to_string(status as u64).as_str());
        push_str(&mut m, ")");
        return Err(AppError::Api(m));
    }
    Ok(true)
}

/// What a WebDAV status says of an upload.
pub fn webdav_put_outcome(status: u16, success: bool) -> (r: Result<(), AppError>)
    ensures
        (status == 401 || status == 403) ==> (r matches Err(e) && (e matches AppError::Api(m) && m@
            == "WebDAV authentication failed"@)),
        status != 401 && status != 403 && !success ==> (r matches Err(e) && (e matches AppError::Api(m) && m@
            == "WebDAV PUT failed ("@ + nat_decimal(status as nat) + ")"@)),
        status != 401 && status != 403 && success ==> r is Ok,
{
    if status == 401 || status == 403 {
        return Err(AppError::Api(str_to_string("WebDAV authentication failed")));
    }
    if !success {
        let mut m = str_to_string("WebDAV PUT failed (");
        push_str(&mut m, u64_to_string(status as u64).as_str());
        push_str(&mut m, ")");
        return Err(AppError::Api(m));
    }
    Ok(())
}

proof fn lemma_without_ws_none(s: Seq<char>)
    requires
        forall|i: int| 0 <= i < s.len() ==> !is_ws(#[trigger] s[i]),
    ensures
        without_ws(s) == s,
    decreases s.len(),
{
    if s.len() > 0 {
        lemma_without_ws_none(s.drop_last());
        assert(s.drop_last().push(s.last()) =~= s);
    }
}

/// A file uploaded through the contents API reads back as the same text,
/// given that base64 decodes what it encoded.
pub proof fn law_file_content_roundtrip(content: Seq<char>)
    requires
        forall|i: int|
            0 <= i < base64_standard(encode_utf8(content)).len() ==> is_base64_char(
                #[trigger] base64_standard(encode_utf8(content))[i],
            ),
        base64_standard_decoded(base64_standard(encode_utf8(content))) matches Ok(b) && b == encode_utf8(content),
    ensures
        spec_decoded_content(base64_standard(encode_utf8(content))) == Some(content),
{
    let t = base64_standard(encode_utf8(content));
    lemma_without_ws_none(t);
    encode_utf8_valid_utf8(content);
    encode_utf8_decode_utf8(content);
}

} // verus!
