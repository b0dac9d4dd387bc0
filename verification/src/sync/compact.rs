use vstd::prelude::*;
use base64::Engine;
use std::io::{Read, Write};
use crate::error::AppError;
use crate::text::{is_ws, push_str, str_to_string, trim, trim_str};

verus! {

/// What the standard base64 engine (with padding) writes for `bytes`.
pub uninterp spec fn base64_standard(bytes: Seq<u8>) -> Seq<char>;

/// What the standard base64 engine reads from `text`: the bytes, or the
/// text of its error.
pub uninterp spec fn base64_standard_decoded(text: Seq<char>) -> Result<Seq<u8>, Seq<char>>;

/// What a gzip encoder at the default level writes for `bytes`, or the text
/// of its error.
pub uninterp spec fn gzip_compressed(bytes: Seq<u8>) -> Result<Seq<u8>, Seq<char>>;

/// What a gzip decoder reads from `bytes`, or the text of its error.
pub uninterp spec fn gzip_decompressed(bytes: Seq<u8>) -> Result<Seq<u8>, Seq<char>>;

/// A successful decoding into `bytes`.
pub open spec fn decoded_ok(bytes: Seq<u8>) -> Result<Seq<u8>, Seq<char>> {
    Ok(bytes)
}

/// A character of the standard base64 alphabet, or the padding `=`.
pub open spec fn is_base64_char(c: char) -> bool {
    ('A' <= c && c <= 'Z') || ('a' <= c && c <= 'z') || ('0' <= c && c <= '9') || c == '+' || c == '/' || c == '='
}

/// `base64::engine::general_purpose::STANDARD.encode`: its result is named
/// `base64_standard`; four characters for every three bytes begun, made of
/// the standard alphabet and `=`; the same engine decodes it back to `bytes`.
#[verifier::external_body]
pub(crate) fn base64_encode(bytes: &[u8]) -> (r: String)
    ensures
        r@ == base64_standard(bytes@),
        r@.len() == 4 * ((bytes@.len() + 2) / 3),
        forall|i: int| 0 <= i < r@.len() ==> is_base64_char(#[trigger] r@[i]),
        base64_standard_decoded(r@) == decoded_ok(bytes@),
{
    base64::engine::general_purpose::STANDARD.encode(bytes)
}

/// `base64::engine::general_purpose::STANDARD.decode`: its result, the
/// bytes or the text of the error, is named `base64_standard_decoded`.
#[verifier::external_body]
pub(crate) fn base64_decode(text: &str) -> (r: Result<Vec<u8>, String>)
    ensures
        match r {
            Ok(v) => base64_standard_decoded(text@) matches Ok(d) && d == v@,
            Err(m) => base64_standard_decoded(text@) matches Err(d) && d == m@,
        },
{
    match base64::engine::general_purpose::STANDARD.decode(text) {
        Ok(v) => Ok(v),
        Err(e) => Err(e.to_string()),
    }
}

/// `flate2::write::GzEncoder` at the default level, fed `bytes` and
/// finished: its result is named `gzip_compressed`; what it writes, a gzip
/// decoder reads back as `bytes`.
#[verifier::external_body]
fn gzip_encode(bytes: &[u8]) -> (r: Result<Vec<u8>, String>)
    ensures
        match r {
            Ok(v) => (gzip_compressed(bytes@) matches Ok(c) && c == v@) && (gzip_decompressed(v@) matches Ok(d)
                && d == bytes@),
            Err(m) => gzip_compressed(bytes@) matches Err(d) && d == m@,
        },
{
    let mut encoder = flate2::write::GzEncoder::new(Vec::new(), flate2::Compression::default());
    match encoder.write_all(bytes) {
        Ok(()) => {},
        Err(e) => return Err(e.to_string()),
    }
    encoder.finish().map_err(|e| e.to_string())
}

/// `flate2::read::GzDecoder` over `bytes`, read to the end: its result is
/// named `gzip_decompressed`.
#[verifier::external_body]
fn gzip_decode(bytes: &[u8]) -> (r: Result<Vec<u8>, String>)
    ensures
        match r {
            Ok(v) => gzip_decompressed(bytes@) matches Ok(d) && d == v@,
            Err(m) => gzip_decompressed(bytes@) matches Err(d) && d == m@,
        },
{
    let mut decoder = flate2::read::GzDecoder::new(bytes);
    let mut out: Vec<u8> = Vec::new();
    match decoder.read_to_end(&mut out) {
        Ok(_) => Ok(out),
        Err(e) => Err(e.to_string()),
    }
}

/// The error that a failed step of the compact form carries: `Other`, with
/// the step's name before the message.
pub open spec fn step_error(e: AppError, step: Seq<char>, message: Seq<char>) -> bool {
    e matches AppError::Other(m) && m@ == step + message
}

fn step_failed(step: &str, message: &String) -> (e: AppError)
    ensures
        step_error(e, step@, message@),
{
    let mut m = str_to_string(step);
    push_str(&mut m, message.as_str());
    AppError::Other(m)
}

/// The compact text of encoded data: gzip, then base64.
pub open spec fn spec_compress(proto_bytes: Seq<u8>) -> Result<Seq<char>, Seq<char>> {
    match gzip_compressed(proto_bytes) {
        Ok(c) => Ok(base64_standard(c)),
        Err(m) => Err("GZIP compress: "@ + m),
    }
}

/// The encoded data that a compact text holds: trimmed, base64 decoded,
/// then gunzipped.
pub open spec fn spec_decompress(content: Seq<char>) -> Result<Seq<u8>, Seq<char>> {
    match base64_standard_decoded(trim(content)) {
        Ok(c) => match gzip_decompressed(c) {
            Ok(b) => Ok(b),
            Err(m) => Err("GZIP decompress: "@ + m),
        },
        Err(m) => Err("Base64 decode: "@ + m),
    }
}

/// The compact text of encoded synchronised data: gzip, then base64.
pub fn compress_bytes(proto_bytes: &Vec<u8>) -> (r: Result<String, AppError>)
    ensures
        match spec_compress(proto_bytes@) {
            Ok(t) => r matches Ok(s) && s@ == t,
            Err(m) => r matches Err(e) && e matches AppError::Other(x) && x@ == m,
        },
{
    match gzip_encode(proto_bytes.as_slice()) {
        Ok(c) => Ok(base64_encode(c.as_slice())),
        Err(m) => Err(step_failed("GZIP compress: ", &m)),
    }
}

/// The encoded synchronised data that a compact text holds.
pub fn decompress_bytes(content: &str) -> (r: Result<Vec<u8>, AppError>)
    ensures
        match spec_decompress(content@) {
            Ok(b) => r matches Ok(v) && v@ == b,
            Err(m) => r matches Err(e) && e matches AppError::Other(x) && x@ == m,
        },
{
    let trimmed = trim_str(content);
    match base64_decode(trimmed.as_str()) {
        Ok(c) => match gzip_decode(c.as_slice()) {
            Ok(b) => Ok(b),
            Err(m) => Err(step_failed("GZIP decompress: ", &m)),
        },
        Err(m) => Err(step_failed("Base64 decode: ", &m)),
    }
}

proof fn lemma_trim_no_ws(s: Seq<char>)
    requires
        forall|i: int| 0 <= i < s.len() ==> !is_ws(#[trigger] s[i]),
    ensures
        trim(s) == s,
{
    if s.len() > 0 {
        assert(!is_ws(s[0]));
        assert(!is_ws(s.last()));
    }
}

/// Reading back the compact text of encoded data gives the data again.
pub proof fn law_compact_text_roundtrip(proto_bytes: Seq<u8>)
    requires
        gzip_compressed(proto_bytes) is Ok,
        gzip_decompressed(gzip_compressed(proto_bytes)->Ok_0) matches Ok(d) && d == proto_bytes,
        forall|i: int|
            0 <= i < base64_standard(gzip_compressed(proto_bytes)->Ok_0).len() ==> is_base64_char(
                #[trigger] base64_standard(gzip_compressed(proto_bytes)->Ok_0)[i],
            ),
        base64_standard_decoded(base64_standard(gzip_compressed(proto_bytes)->Ok_0)) matches Ok(d) && d
            == gzip_compressed(proto_bytes)->Ok_0,
    ensures
        spec_compress(proto_bytes) matches Ok(t) && (spec_decompress(t) matches Ok(d) && d == proto_bytes),
{
    let c = gzip_compressed(proto_bytes)->Ok_0;
    let t = base64_standard(c);
    lemma_trim_no_ws(t);
}

} // verus!
