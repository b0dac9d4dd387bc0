use vstd::prelude::*;
use aes::cipher::{BlockDecrypt, BlockEncrypt, BlockEncryptMut, KeyInit, KeyIvInit};
use aes::cipher::block_padding::Pkcs7;
use aes::cipher::generic_array::GenericArray;
use rand::Rng;
use vstd::arithmetic::power::pow;
use vstd::utf8::{
    decode_utf8, encode_utf8, encode_utf8_decode_utf8, encode_utf8_valid_utf8, is_ascii_chars, is_ascii_chars_encode_utf8,
    valid_utf8,
};
use crate::digest::{bytes_to_lower_hex, hex_encode, hex_encode_upper, hex_lower, hex_upper, md5, md5_digest};
use crate::sync::compact::{base64_encode, base64_standard};
use crate::text::{contains_seq, occurs_at, find_from, first_occurrence_from, from_char_range, lemma_first_occurrence_from, push_str, str_to_string, to_chars};

verus! {

// ===== the outside ciphers =====

/// AES-128 applied to one 16-byte block under `key`.
pub uninterp spec fn aes128_block_encrypted(key: Seq<u8>, block: Seq<u8>) -> Seq<u8>;

/// AES-128 inverted on one 16-byte block under `key`.
pub uninterp spec fn aes128_block_decrypted(key: Seq<u8>, block: Seq<u8>) -> Seq<u8>;

/// The text that `String::from_utf8_lossy` reads from `bytes`.
pub uninterp spec fn utf8_lossy(bytes: Seq<u8>) -> Seq<char>;

/// `aes::Aes128::encrypt_block` under `key`: named `aes128_block_encrypted`;
/// 16 bytes, which `decrypt_block` under the same key turns back into
/// `block`.
#[verifier::external_body]
fn aes128_encrypt_block(key: &[u8], block: &[u8]) -> (r: Vec<u8>)
    requires
        key@.len() == 16,
        block@.len() == 16,
    ensures
        r@ == aes128_block_encrypted(key@, block@),
        r@.len() == 16,
        aes128_block_decrypted(key@, r@) == block@,
{
    let cipher = aes::Aes128::new(GenericArray::from_slice(key));
    let mut b = GenericArray::clone_from_slice(block);
    cipher.encrypt_block(&mut b);
    b.to_vec()
}

/// `aes::Aes128::decrypt_block` under `key`: named `aes128_block_decrypted`;
/// 16 bytes, which `encrypt_block` under the same key turns back into
/// `block`.
#[verifier::external_body]
fn aes128_decrypt_block(key: &[u8], block: &[u8]) -> (r: Vec<u8>)
    requires
        key@.len() == 16,
        block@.len() == 16,
    ensures
        r@ == aes128_block_decrypted(key@, block@),
        r@.len() == 16,
        aes128_block_encrypted(key@, r@) == block@,
{
    let cipher = aes::Aes128::new(GenericArray::from_slice(key));
    let mut b = GenericArray::clone_from_slice(block);
    cipher.decrypt_block(&mut b);
    b.to_vec()
}

/// `cbc::Encryptor<Aes128>::encrypt_padded_mut::<Pkcs7>` over `data`: the
/// data padded with PKCS#7 to whole blocks, each block XORed with the
/// previous ciphertext block (the IV for the first) and encrypted with
/// AES-128.
#[verifier::external_body]
fn aes128_cbc_encrypt(data: &[u8], key: &[u8], iv: &[u8]) -> (r: Vec<u8>)
    requires
        key@.len() == 16,
        iv@.len() == 16,
        data@.len() + 16 <= isize::MAX,
    ensures
        r@ == spec_cbc_encrypt(data@, key@, iv@),
        r@.len() == (data@.len() / 16 + 1) * 16,
{
    let mut buf = data.to_vec();
    buf.extend_from_slice(&[0u8; 16]);
    let enc = cbc::Encryptor::<aes::Aes128>::new(GenericArray::from_slice(key), GenericArray::from_slice(iv));
    enc.encrypt_padded_mut::<Pkcs7>(&mut buf, data.len()).expect("CBC encrypt failed").to_vec()
}

/// `rand::thread_rng().gen_range(0..n)`: some number below `n`.
#[verifier::external_body]
fn random_below(n: usize) -> (r: usize)
    requires
        n > 0,
    ensures
        r < n,
{
    rand::thread_rng().gen_range(0..n)
}

/// `String::from_utf8_lossy`: named `utf8_lossy`; valid UTF-8 reads as the
/// text it encodes.
#[verifier::external_body]
fn utf8_lossy_string(bytes: &[u8]) -> (r: String)
    ensures
        r@ == utf8_lossy(bytes@),
        valid_utf8(bytes@) ==> r@ == decode_utf8(bytes@),
{
    String::from_utf8_lossy(bytes).into_owned()
}

// ===== numbers in hexadecimal =====

/// The number that big-endian bytes denote.
pub open spec fn be_value(b: Seq<u8>) -> nat
    decreases b.len(),
{
    if b.len() == 0 {
        0
    } else {
        (be_value(b.drop_last()) * 256 + b.last()) as nat
    }
}

/// `n` in lowercase hexadecimal without leading zeros (`0` for zero).
pub open spec fn lower_hex_nat(n: nat) -> Seq<char>
    decreases n,
{
    if n < 16 {
        seq![crate::digest::hex_digit_lower(n as int)]
    } else {
        lower_hex_nat(n / 16) + seq![crate::digest::hex_digit_lower((n % 16) as int)]
    }
}

/// `(base ^ exponent) % modulus` with `rsa::BigUint`, all three read as
/// big-endian bytes, written with `{:x}`.
#[verifier::external_body]
fn biguint_modpow_hex(base_be: &[u8], exponent_be: &[u8], modulus_be: &[u8]) -> (r: String)
    requires
        be_value(modulus_be@) > 0,
    ensures
        r@ == lower_hex_nat((pow(be_value(base_be@) as int, be_value(exponent_be@)) % (be_value(modulus_be@) as int)) as nat),
{
    let m = rsa::BigUint::from_bytes_be(base_be);
    let e = rsa::BigUint::from_bytes_be(exponent_be);
    let n = rsa::BigUint::from_bytes_be(modulus_be);
    format!("{:x}", m.modpow(&e, &n))
}

// ===== AES-128-ECB with PKCS#7 padding =====

/// `data` padded with PKCS#7 to whole 16-byte blocks: `p` bytes of value
/// `p`, 1 to 16 of them.
pub open spec fn pkcs7_padded(data: Seq<u8>) -> Seq<u8> {
    let p = 16 - data.len() % 16;
    data + Seq::new(p as nat, |i: int| p as u8)
}

/// The first `n` 16-byte blocks of `data`, each encrypted under `key`.
pub open spec fn ecb_encrypted(key: Seq<u8>, data: Seq<u8>, n: nat) -> Seq<u8>
    decreases n,
{
    if n == 0 {
        Seq::empty()
    } else {
        ecb_encrypted(key, data, (n - 1) as nat) + aes128_block_encrypted(
            key,
            data.subrange(16 * (n - 1), 16 * (n as int)),
        )
    }
}

/// The first `n` 16-byte blocks of `data`, each decrypted under `key`.
pub open spec fn ecb_decrypted(key: Seq<u8>, data: Seq<u8>, n: nat) -> Seq<u8>
    decreases n,
{
    if n == 0 {
        Seq::empty()
    } else {
        ecb_decrypted(key, data, (n - 1) as nat) + aes128_block_decrypted(
            key,
            data.subrange(16 * (n - 1), 16 * (n as int)),
        )
    }
}

/// The 16 bytes of `a` XORed with those of `b`.
pub open spec fn xor16(a: Seq<u8>, b: Seq<u8>) -> Seq<u8> {
    Seq::new(16, |i: int| a[i] ^ b[i])
}

/// The first `n` 16-byte blocks of `data` encrypted in CBC mode from `iv`:
/// the ciphertext so far and its last block (the IV before any).
pub open spec fn cbc_chain(key: Seq<u8>, data: Seq<u8>, iv: Seq<u8>, n: nat) -> (Seq<u8>, Seq<u8>)
    decreases n,
{
    if n == 0 {
        (Seq::empty(), iv)
    } else {
        let (c, prev) = cbc_chain(key, data, iv, (n - 1) as nat);
        let e = aes128_block_encrypted(key, xor16(data.subrange(16 * (n - 1), 16 * (n as int)), prev));
        (c + e, e)
    }
}

/// AES-128-CBC encryption of `data` padded with PKCS#7, from `iv`.
pub open spec fn spec_cbc_encrypt(data: Seq<u8>, key: Seq<u8>, iv: Seq<u8>) -> Seq<u8> {
    let p = pkcs7_padded(data);
    cbc_chain(key, p, iv, p.len() / 16).0
}

/// AES-128-ECB encryption of `data` padded with PKCS#7.
pub open spec fn spec_ecb_encrypt(data: Seq<u8>, key: Seq<u8>) -> Seq<u8> {
    let p = pkcs7_padded(data);
    ecb_encrypted(key, p, p.len() / 16)
}

/// AES-128-ECB decryption with the PKCS#7 padding checked and removed:
/// nothing for empty input, input that is not whole blocks, or bad padding.
pub open spec fn spec_ecb_decrypt(data: Seq<u8>, key: Seq<u8>) -> Option<Seq<u8>> {
    if data.len() == 0 || data.len() % 16 != 0 {
        None
    } else {
        let buf = ecb_decrypted(key, data, data.len() / 16);
        let pad = buf.last() as int;
        if pad == 0 || pad > 16 {
            None
        } else if exists|i: int| buf.len() - pad <= i < buf.len() && #[trigger] buf[i] != pad {
            None
        } else {
            Some(buf.take(buf.len() - pad))
        }
    }
}

fn copy_range(v: &Vec<u8>, a: usize, b: usize) -> (r: Vec<u8>)
    requires
        a <= b <= v@.len(),
    ensures
        r@ == v@.subrange(a as int, b as int),
{
    let mut r: Vec<u8> = Vec::new();
    let mut i: usize = a;
    while i < b
        invariant
            a <= i <= b <= v@.len(),
            r@ == v@.subrange(a as int, i as int),
        decreases b - i,
    {
        r.push(v[i]);
        i = i + 1;
        assert(r@ =~= v@.subrange(a as int, i as int));
    }
    r
}

/// The bytes padded with PKCS#7 to whole 16-byte blocks.
fn pkcs7_pad(data: &[u8]) -> (r: Vec<u8>)
    ensures
        r@ == pkcs7_padded(data@),
{
    let p: usize = 16 - data.len() % 16;
    let mut r: Vec<u8> = Vec::new();
    let mut i: usize = 0;
    while i < data.len()
        invariant
            i <= data@.len(),
            r@ == data@.take(i as int),
        decreases data@.len() - i,
    {
        r.push(data[i]);
        i = i + 1;
        assert(r@ =~= data@.take(i as int));
    }
    let mut k: usize = 0;
    while k < p
        invariant
            1 <= p <= 16,
            p == 16 - data@.len() % 16,
            k <= p,
            r@ == data@ + Seq::new(k as nat, |j: int| p as u8),
        decreases p - k,
    {
        r.push(p as u8);
        k = k + 1;
        assert(r@ =~= data@ + Seq::new(k as nat, |j: int| p as u8));
    }
    r
}

/// AES-128-ECB over `data` padded with PKCS#7, block by block.
fn aes_ecb_encrypt(data: &[u8], key: &[u8]) -> (r: Vec<u8>)
    requires
        key@.len() == 16,
    ensures
        r@ == spec_ecb_encrypt(data@, key@),
{
    let padded = pkcs7_pad(data);
    let n = padded.len() / 16;
    assert(padded@.len() % 16 == 0);
    let mut out: Vec<u8> = Vec::new();
    let mut i: usize = 0;
    while i < n
        invariant
            key@.len() == 16,
            n == padded@.len() / 16,
            padded@.len() == 16 * n,
            16 * n == padded.len(),
            i <= n,
            out@ == ecb_encrypted(key@, padded@, i as nat),
        decreases n - i,
    {
        let block = copy_range(&padded, 16 * i, 16 * i + 16);
        let mut enc = aes128_encrypt_block(key, block.as_slice());
        out.append(&mut enc);
        i = i + 1;
    }
    out
}

fn ecb_decrypt_blocks(data: &[u8], key: &[u8]) -> (r: Vec<u8>)
    requires
        key@.len() == 16,
        data@.len() % 16 == 0,
    ensures
        r@ == ecb_decrypted(key@, data@, data@.len() / 16),
        r@.len() == data@.len(),
{
    let n = data.len() / 16;
    let mut v: Vec<u8> = Vec::new();
    let mut j: usize = 0;
    while j < data.len()
        invariant
            j <= data@.len(),
            v@ == data@.take(j as int),
        decreases data@.len() - j,
    {
        v.push(data[j]);
        j = j + 1;
        assert(v@ =~= data@.take(j as int));
    }
    assert(v@ =~= data@);
    let mut out: Vec<u8> = Vec::new();
    let mut i: usize = 0;
    while i < n
        invariant
            key@.len() == 16,
            v@ == data@,
            n == data@.len() / 16,
            data@.len() == 16 * n,
            16 * n == data.len(),
            v@.len() == v.len(),
            i <= n,
            out@ == ecb_decrypted(key@, data@, i as nat),
            out@.len() == 16 * i,
        decreases n - i,
    {
        let block = copy_range(&v, 16 * i, 16 * i + 16);
        let mut dec = aes128_decrypt_block(key, block.as_slice());
        out.append(&mut dec);
        i = i + 1;
    }
    out
}

/// AES-128-ECB decryption of `data` with the PKCS#7 padding checked and
/// removed.
fn aes_ecb_decrypt(data: &[u8], key: &[u8]) -> (r: Option<Vec<u8>>)
    requires
        key@.len() == 16,
    ensures
        match spec_ecb_decrypt(data@, key@) {
            Some(b) => r matches Some(v) && v@ == b,
            None => r is None,
        },
{
    if data.len() == 0 || data.len() % 16 != 0 {
        return None;
    }
    let mut buf = ecb_decrypt_blocks(data, key);
    let pad: usize = buf[buf.len() - 1] as usize;
    if pad == 0 || pad > 16 {
        return None;
    }
    let len = buf.len();
    let mut i: usize = len - pad;
    while i < len
        invariant
            len == buf@.len(),
            buf@ == ecb_decrypted(key@, data@, data@.len() / 16),
            pad as int == buf@.last() as int,
            1 <= pad <= 16 <= len,
            len - pad <= i <= len,
            forall|k: int| len - pad <= k < i ==> buf@[k] == pad,
        decreases len - i,
    {
        if buf[i] as usize != pad {
            assert(buf@[i as int] != pad);
            return None;
        }
        i = i + 1;
    }
    buf.truncate(len - pad);
    assert(buf@ =~= ecb_decrypted(key@, data@, data@.len() / 16).take(len - pad));
    Some(buf)
}


// ===== the keys =====

/// `0CoJUm6Qyw8W8jud`, the fixed key of the first WEAPI layer.
pub open spec fn preset_key() -> Seq<u8> {
    seq![48u8, 67, 111, 74, 85, 109, 54, 81, 121, 119, 56, 87, 56, 106, 117, 100]
}

/// `0102030405060708`, the initialisation vector of both WEAPI layers.
pub open spec fn weapi_iv() -> Seq<u8> {
    seq![48u8, 49, 48, 50, 48, 51, 48, 52, 48, 53, 48, 54, 48, 55, 48, 56]
}

/// `e82ckenh8dichen8`, the EAPI key.
pub open spec fn eapi_key() -> Seq<u8> {
    seq![101u8, 56, 50, 99, 107, 101, 110, 104, 56, 100, 105, 99, 104, 101, 110, 56]
}

/// `rFgB&h#%2?^eDg:Q`, the Linux API key.
pub open spec fn linux_key() -> Seq<u8> {
    seq![114u8, 70, 103, 66, 38, 104, 35, 37, 50, 63, 94, 101, 68, 103, 58, 81]
}

fn preset_key_exec() -> (r: Vec<u8>)
    ensures
        r@ == preset_key(),
{
    let r: Vec<u8> = vec![48u8, 67, 111, 74, 85, 109, 54, 81, 121, 119, 56, 87, 56, 106, 117, 100];
    assert(r@ =~= preset_key());
    r
}

fn weapi_iv_exec() -> (r: Vec<u8>)
    ensures
        r@ == weapi_iv(),
{
    let r: Vec<u8> = vec![48u8, 49, 48, 50, 48, 51, 48, 52, 48, 53, 48, 54, 48, 55, 48, 56];
    assert(r@ =~= weapi_iv());
    r
}

fn eapi_key_exec() -> (r: Vec<u8>)
    ensures
        r@ == eapi_key(),
{
    let r: Vec<u8> = vec![101u8, 56, 50, 99, 107, 101, 110, 104, 56, 100, 105, 99, 104, 101, 110, 56];
    assert(r@ =~= eapi_key());
    r
}

fn linux_key_exec() -> (r: Vec<u8>)
    ensures
        r@ == linux_key(),
{
    let r: Vec<u8> = vec![114u8, 70, 103, 66, 38, 104, 35, 37, 50, 63, 94, 101, 68, 103, 58, 81];
    assert(r@ =~= linux_key());
    r
}

/// The public RSA exponent 65537, big-endian.
pub open spec fn rsa_exponent() -> Seq<u8> {
    seq![1u8, 0, 1]
}

/// The public RSA modulus, big-endian (`00e0b509...0a22b8e7`).
pub open spec fn rsa_modulus() -> Seq<u8> {
    seq![0u8, 224, 181, 9, 246, 37, 157, 248, 100, 45, 188, 53, 102, 41, 1, 71, 125, 242, 38, 119, 236, 21, 43, 95, 246, 138, 206, 97, 91, 183, 183, 37, 21, 43, 58, 177, 122, 135, 106, 234, 138, 90, 167, 109, 46, 65, 118, 41, 236, 78, 227, 65, 245, 97, 53, 252, 207, 105, 82, 128, 16, 78, 3, 18, 236, 189, 169, 37, 87, 201, 56, 112, 17, 74, 246, 201, 208, 92, 79, 127, 12, 54, 133, 183, 164, 107, 238, 37, 89, 50, 87, 92, 206, 16, 180, 36, 216, 19, 207, 228, 135, 93, 62, 130, 4, 123, 151, 221, 239, 82, 116, 29, 84, 107, 142, 40, 157, 198, 147, 91, 62, 206, 4, 98, 219, 10, 34, 184, 231]
}

fn rsa_exponent_exec() -> (r: Vec<u8>)
    ensures
        r@ == rsa_exponent(),
{
    let r: Vec<u8> = vec![1u8, 0, 1];
    assert(r@ =~= rsa_exponent());
    r
}

fn rsa_modulus_exec() -> (r: Vec<u8>)
    ensures
        r@ == rsa_modulus(),
{
    let r: Vec<u8> = vec![0u8, 224, 181, 9, 246, 37, 157, 248, 100, 45, 188, 53, 102, 41, 1, 71, 125, 242, 38, 119, 236, 21, 43, 95, 246, 138, 206, 97, 91, 183, 183, 37, 21, 43, 58, 177, 122, 135, 106, 234, 138, 90, 167, 109, 46, 65, 118, 41, 236, 78, 227, 65, 245, 97, 53, 252, 207, 105, 82, 128, 16, 78, 3, 18, 236, 189, 169, 37, 87, 201, 56, 112, 17, 74, 246, 201, 208, 92, 79, 127, 12, 54, 133, 183, 164, 107, 238, 37, 89, 50, 87, 92, 206, 16, 180, 36, 216, 19, 207, 228, 135, 93, 62, 130, 4, 123, 151, 221, 239, 82, 116, 29, 84, 107, 142, 40, 157, 198, 147, 91, 62, 206, 4, 98, 219, 10, 34, 184, 231];
    assert(r@ =~= rsa_modulus());
    r
}

// ===== EAPI responses =====

/// The separator between the parts of an EAPI message.
pub open spec fn eapi_separator() -> Seq<char> {
    "-36cd479b6b5-"@
}

/// The second piece of `text` split at the separator, as `str::split` gives
/// it; the whole text when there is no separator.
pub open spec fn eapi_json_piece(text: Seq<char>) -> Seq<char> {
    let sep = eapi_separator();
    match first_occurrence_from(text, sep, 0) {
        Some(p1) => match first_occurrence_from(text, sep, p1 + sep.len()) {
            Some(p2) => text.subrange(p1 + sep.len(), p2),
            None => text.subrange(p1 + sep.len(), text.len() as int),
        },
        None => text,
    }
}

/// The text that bytes read as UTF-8 give, invalid sequences replaced:
/// valid UTF-8 gives the text it encodes.
pub open spec fn read_utf8_lossy(b: Seq<u8>) -> Seq<char> {
    if valid_utf8(b) { decode_utf8(b) } else { utf8_lossy(b) }
}

/// What `eapi_decrypt` gives for raw response bytes.
pub open spec fn spec_eapi_decrypt(data: Seq<u8>) -> Option<Seq<char>> {
    match spec_ecb_decrypt(data, eapi_key()) {
        Some(b) => Some(eapi_json_piece(read_utf8_lossy(b))),
        None => None,
    }
}

/// Decrypts an EAPI response: AES-128-ECB under the EAPI key, read as UTF-8
/// (invalid sequences replaced), and the JSON piece between the first two
/// separators taken out; the whole text when there is no separator.
pub fn eapi_decrypt(hex_data: &[u8]) -> (r: Option<String>)
    ensures
        match spec_eapi_decrypt(hex_data@) {
            Some(t) => r matches Some(s) && s@ == t,
            None => r is None,
        },
{
    let key = eapi_key_exec();
    let decrypted = match aes_ecb_decrypt(hex_data, key.as_slice()) {
        Some(d) => d,
        None => return None,
    };
    let text = utf8_lossy_string(decrypted.as_slice());
    let v = to_chars(text.as_str());
    let sep = to_chars("-36cd479b6b5-");
    let first = find_from(v.as_slice(), sep.as_slice(), 0);
    proof {
        lemma_first_occurrence_from(v@, sep@, 0, match first {
            Some(k) => Some(k as int),
            None => None,
        });
    }
    match first {
        Some(p1) => {
            let vlen = v.len();
            let slen = sep.len();
            assert(p1 + slen <= vlen);
            let from = p1 + slen;
            let second = find_from(v.as_slice(), sep.as_slice(), from);
            proof {
                lemma_first_occurrence_from(v@, sep@, from as int, match second {
                    Some(k) => Some(k as int),
                    None => None,
                });
            }
            match second {
                Some(p2) => Some(from_char_range(v.as_slice(), from, p2)),
                None => Some(from_char_range(v.as_slice(), from, v.len())),
            }
        },
        None => Some(text),
    }
}


// ===== requests =====

/// A byte of the random WEAPI key: an ASCII letter or digit.
pub open spec fn is_key_byte(b: u8) -> bool {
    (97 <= b <= 122) || (65 <= b <= 90) || (48 <= b <= 57)
}

/// The byte at `i` of `abcdefghijklmnopqrstuvwxyzABCDEFGHIJKLMNOPQRSTUVWXYZ0123456789`.
fn key_charset_byte(i: usize) -> (r: u8)
    requires
        i < 62,
    ensures
        is_key_byte(r),
{
    if i < 26 {
        97u8 + i as u8
    } else if i < 52 {
        65u8 + (i - 26) as u8
    } else {
        48u8 + (i - 52) as u8
    }
}

/// Sixteen random ASCII letters and digits.
fn random_key() -> (r: Vec<u8>)
    ensures
        r@.len() == 16,
        forall|i: int| 0 <= i < 16 ==> is_key_byte(#[trigger] r@[i]),
{
    let mut key: Vec<u8> = Vec::new();
    let mut i: usize = 0;
    while i < 16
        invariant
            i <= 16,
            key@.len() == i,
            forall|k: int| 0 <= k < i ==> is_key_byte(#[trigger] key@[k]),
        decreases 16 - i,
    {
        key.push(key_charset_byte(random_below(62)));
        i = i + 1;
    }
    key
}

/// `s` padded on the left with `0` to `width` characters.
pub open spec fn zero_padded(s: Seq<char>, width: nat) -> Seq<char> {
    if s.len() >= width { s } else { Seq::new((width - s.len()) as nat, |i: int| '0') + s }
}

fn pad_zeros(s: &String, width: usize) -> (r: String)
    ensures
        r@ == zero_padded(s@, width as nat),
{
    let v = to_chars(s.as_str());
    let mut r = String::new();
    if v.len() < width {
        let n = width - v.len();
        let mut i: usize = 0;
        while i < n
            invariant
                i <= n,
                r@ == Seq::new(i as nat, |k: int| '0'),
            decreases n - i,
        {
            r.push('0');
            i = i + 1;
            assert(r@ =~= Seq::new(i as nat, |k: int| '0'));
        }
    }
    push_str(&mut r, s.as_str());
    assert(v@.len() >= width ==> r@ =~= s@);
    r
}

/// The WEAPI `params`: the JSON encrypted with AES-128-CBC under the preset
/// key, in base64, encrypted again under `key`, in base64.
pub open spec fn weapi_params(json: Seq<char>, key: Seq<u8>) -> Seq<char> {
    base64_standard(
        spec_cbc_encrypt(
            encode_utf8(base64_standard(spec_cbc_encrypt(encode_utf8(json), preset_key(), weapi_iv()))),
            key,
            weapi_iv(),
        ),
    )
}

/// The WEAPI `encSecKey`: the reversed key as a big-endian number raised to
/// the public exponent modulo the public modulus, in lowercase hexadecimal
/// padded with `0` to 256 digits.
pub open spec fn weapi_sec_key(key: Seq<u8>) -> Seq<char> {
    zero_padded(
        lower_hex_nat((pow(be_value(key.reverse()) as int, be_value(rsa_exponent())) % (be_value(rsa_modulus()) as int)) as nat),
        256,
    )
}

proof fn lemma_weapi_lengths(l: int, l1: int, b: int)
    requires
        0 <= l,
        4 * l + 128 <= isize::MAX,
        l1 == (l / 16 + 1) * 16,
        b == 4 * ((l1 + 2) / 3),
    ensures
        l + 16 <= isize::MAX,
        b + 16 <= isize::MAX,
{
    assert(l1 <= l + 16) by (nonlinear_arith)
        requires
            0 <= l,
            l1 == (l / 16 + 1) * 16,
    ;
    assert(b <= 2 * l1 + 4) by (nonlinear_arith)
        requires
            0 <= l1,
            b == 4 * ((l1 + 2) / 3),
    ;
}

/// WEAPI encryption with a given key: the `params` and the `encSecKey`.
pub fn weapi_encrypt_with_key(json: &str, sec_key: &Vec<u8>) -> (r: (String, String))
    requires
        sec_key@.len() == 16,
        4 * encode_utf8(json@).len() + 128 <= isize::MAX,
    ensures
        r.0@ == weapi_params(json@, sec_key@),
        r.1@ == weapi_sec_key(sec_key@),
{
    let preset = preset_key_exec();
    let iv = weapi_iv_exec();
    let json_bytes = json.as_bytes();
    proof {
        lemma_weapi_lengths(
            json_bytes@.len() as int,
            ((json_bytes@.len() / 16 + 1) * 16) as int,
            (4 * (((json_bytes@.len() / 16 + 1) * 16 + 2) / 3)) as int,
        );
    }
    let first = aes128_cbc_encrypt(json_bytes, preset.as_slice(), iv.as_slice());
    let first_b64 = base64_encode(first.as_slice());
    proof {
        assert(is_ascii_chars(first_b64@));
        is_ascii_chars_encode_utf8(first_b64@);
    }
    let second = aes128_cbc_encrypt(first_b64.as_str().as_bytes(), sec_key.as_slice(), iv.as_slice());
    let params = base64_encode(second.as_slice());
    let mut reversed: Vec<u8> = Vec::new();
    let mut i: usize = 16;
    while i > 0
        invariant
            i <= 16,
            sec_key@.len() == 16,
            reversed@ == sec_key@.reverse().take(16 - i),
        decreases i,
    {
        i = i - 1;
        reversed.push(sec_key[i]);
        assert(reversed@ =~= sec_key@.reverse().take(16 - i));
    }
    assert(reversed@ =~= sec_key@.reverse());
    let exponent = rsa_exponent_exec();
    let modulus = rsa_modulus_exec();
    assert(be_value(modulus@) > 0) by {
        assert(modulus@.last() == 231u8);
    }
    let c = biguint_modpow_hex(reversed.as_slice(), exponent.as_slice(), modulus.as_slice());
    let enc_sec_key = pad_zeros(&c, 256);
    (params, enc_sec_key)
}

/// WEAPI encryption with a fresh random key of ASCII letters and digits.
pub fn weapi_encrypt(json: &str) -> (r: (String, String))
    requires
        4 * encode_utf8(json@).len() + 128 <= isize::MAX,
    ensures
        exists|key: Seq<u8>|
            key.len() == 16 && (forall|i: int| 0 <= i < 16 ==> is_key_byte(#[trigger] key[i])) && r.0@
                == weapi_params(json@, key) && r.1@ == #[trigger] weapi_sec_key(key),
{
    let sec_key = random_key();
    weapi_encrypt_with_key(json, &sec_key)
}

/// `nobody<url>use<json>md5forencrypt`, the text whose MD5 an EAPI request
/// carries.
pub open spec fn eapi_message(url: Seq<char>, json: Seq<char>) -> Seq<char> {
    "nobody"@ + url + "use"@ + json + "md5forencrypt"@
}

/// `<url>-36cd479b6b5-<json>-36cd479b6b5-<md5 hex>`.
pub open spec fn eapi_payload(url: Seq<char>, json: Seq<char>) -> Seq<char> {
    url + eapi_separator() + json + eapi_separator() + hex_lower(md5_digest(encode_utf8(eapi_message(url, json))))
}

/// An EAPI request body: the payload encrypted with AES-128-ECB under the
/// EAPI key, in uppercase hexadecimal.
pub open spec fn spec_eapi_encrypt(url: Seq<char>, json: Seq<char>) -> Seq<char> {
    hex_upper(spec_ecb_encrypt(encode_utf8(eapi_payload(url, json)), eapi_key()))
}

/// EAPI encryption of a request to `url` with body `json`.
pub fn eapi_encrypt(url: &str, json: &str) -> (r: String)
    ensures
        r@ == spec_eapi_encrypt(url@, json@),
{
    let mut message = str_to_string("nobody");
    push_str(&mut message, url);
    push_str(&mut message, "use");
    push_str(&mut message, json);
    push_str(&mut message, "md5forencrypt");
    let digest = md5(message.as_str().as_bytes());
    let digest_hex = bytes_to_lower_hex(digest.as_slice());
    let mut data = str_to_string(url);
    push_str(&mut data, "-36cd479b6b5-");
    push_str(&mut data, json);
    push_str(&mut data, "-36cd479b6b5-");
    push_str(&mut data, digest_hex.as_str());
    let key = eapi_key_exec();
    let encrypted = aes_ecb_encrypt(data.as_str().as_bytes(), key.as_slice());
    hex_encode_upper(encrypted.as_slice())
}

/// A Linux API request body: the JSON encrypted with AES-128-ECB under the
/// Linux key, in lowercase hexadecimal.
pub open spec fn spec_linux_encrypt(json: Seq<char>) -> Seq<char> {
    hex_lower(spec_ecb_encrypt(encode_utf8(json), linux_key()))
}

/// Linux API encryption of `json`.
pub fn linux_encrypt(json: &str) -> (r: String)
    ensures
        r@ == spec_linux_encrypt(json@),
{
    let key = linux_key_exec();
    let encrypted = aes_ecb_encrypt(json.as_bytes(), key.as_slice());
    hex_encode(encrypted.as_slice())
}


// ===== round trip =====

/// AES-128 turns 16-byte blocks into 16-byte blocks under `key`, and its
/// inverse undoes it.
pub open spec fn aes_block_inverse(key: Seq<u8>) -> bool {
    &&& forall|b: Seq<u8>| b.len() == 16 ==> (#[trigger] aes128_block_encrypted(key, b)).len() == 16
    &&& forall|b: Seq<u8>| b.len() == 16 ==> aes128_block_decrypted(key, #[trigger] aes128_block_encrypted(key, b)) == b
}

proof fn lemma_ecb_encrypted_len(key: Seq<u8>, p: Seq<u8>, n: nat)
    requires
        aes_block_inverse(key),
        16 * n <= p.len(),
    ensures
        ecb_encrypted(key, p, n).len() == 16 * n,
    decreases n,
{
    if n > 0 {
        lemma_ecb_encrypted_len(key, p, (n - 1) as nat);
        assert(p.subrange(16 * (n - 1), 16 * (n as int)).len() == 16);
    }
}

proof fn lemma_ecb_encrypted_block(key: Seq<u8>, p: Seq<u8>, n: nat, k: int)
    requires
        aes_block_inverse(key),
        16 * n <= p.len(),
        1 <= k <= n,
    ensures
        ecb_encrypted(key, p, n).subrange(16 * (k - 1), 16 * k) == aes128_block_encrypted(
            key,
            p.subrange(16 * (k - 1), 16 * k),
        ),
    decreases n,
{
    let prev = ecb_encrypted(key, p, (n - 1) as nat);
    lemma_ecb_encrypted_len(key, p, (n - 1) as nat);
    assert(p.subrange(16 * (n - 1), 16 * (n as int)).len() == 16);
    if k < n {
        lemma_ecb_encrypted_block(key, p, (n - 1) as nat, k);
        assert(ecb_encrypted(key, p, n).subrange(16 * (k - 1), 16 * k) =~= prev.subrange(16 * (k - 1), 16 * k));
    } else {
        assert(ecb_encrypted(key, p, n).subrange(16 * (k - 1), 16 * k) =~= aes128_block_encrypted(
            key,
            p.subrange(16 * (k - 1), 16 * k),
        ));
    }
}

proof fn lemma_ecb_decrypts_encrypted(key: Seq<u8>, p: Seq<u8>, n: nat, k: nat)
    requires
        aes_block_inverse(key),
        16 * n == p.len(),
        k <= n,
    ensures
        ecb_decrypted(key, ecb_encrypted(key, p, n), k) == p.take(16 * (k as int)),
    decreases k,
{
    if k > 0 {
        lemma_ecb_decrypts_encrypted(key, p, n, (k - 1) as nat);
        lemma_ecb_encrypted_block(key, p, n, k as int);
        let block = p.subrange(16 * (k - 1), 16 * (k as int));
        assert(block.len() == 16);
        assert(p.take(16 * (k - 1)) + block =~= p.take(16 * (k as int)));
    } else {
        assert(p.take(0) =~= Seq::<u8>::empty());
    }
}

/// AES-128-ECB with PKCS#7 padding reads back what it wrote: decrypting the
/// encryption of `data` under a key gives `data`, given that the block
/// cipher's inverse undoes it under that key.
pub proof fn law_ecb_roundtrip(data: Seq<u8>, key: Seq<u8>)
    requires
        aes_block_inverse(key),
    ensures
        spec_ecb_decrypt(spec_ecb_encrypt(data, key), key) == Some(data),
{
    let p = pkcs7_padded(data);
    let pad = 16 - data.len() % 16;
    assert(p.len() == data.len() + pad);
    assert(p.len() % 16 == 0);
    let n = p.len() / 16;
    let e = ecb_encrypted(key, p, n);
    lemma_ecb_encrypted_len(key, p, n);
    assert(e.len() / 16 == n);
    lemma_ecb_decrypts_encrypted(key, p, n, n);
    assert(p.take(16 * (n as int)) =~= p);
    let buf = ecb_decrypted(key, e, e.len() / 16);
    assert(buf == p);
    assert(buf.last() as int == pad);
    assert forall|i: int| buf.len() - pad <= i < buf.len() implies #[trigger] buf[i] == pad by {
        assert(p[i] == pad as u8);
    }
    assert(buf.take(buf.len() - pad) =~= data);
}


/// `s` ends with `suffix`.
pub open spec fn ends_with_seq(s: Seq<char>, suffix: Seq<char>) -> bool {
    suffix.len() <= s.len() && s.subrange(s.len() - suffix.len(), s.len() as int) == suffix
}

/// The separator without its last character: a part that ends so would run
/// into the separator that follows it.
pub open spec fn separator_head() -> Seq<char> {
    "-36cd479b6b5"@
}

/// Occurrences of the separator in `a + sep + b` before `a.len()` would lie
/// in `a` or run into the separator.
proof fn lemma_no_early_separator(a: Seq<char>, rest: Seq<char>, j: int)
    requires
        !contains_seq(a, eapi_separator()),
        !ends_with_seq(a, separator_head()),
        0 <= j < a.len(),
    ensures
        !occurs_at(a + eapi_separator() + rest, eapi_separator(), j),
{
    reveal_strlit("-36cd479b6b5-");
    reveal_strlit("-36cd479b6b5");
    let sep = eapi_separator();
    let p = a + sep + rest;
    if occurs_at(p, sep, j) {
        assert(p.subrange(j, j + 13) == sep);
        if j + 13 <= a.len() {
            assert(a.subrange(j, j + 13) =~= p.subrange(j, j + 13));
            assert(occurs_at(a, sep, j));
        } else {
            let k = j + 12 - a.len();
            assert(p[j + 12] == sep[12]);
            assert(p[j + 12] == sep[k]);
            assert(0 <= k < 12);
            if k > 0 {
                assert(sep[k] != '-');
            }
            assert(j == a.len() - 12);
            assert(a.subrange(a.len() - 12, a.len() as int) =~= separator_head()) by {
                assert forall|i: int| 0 <= i < 12 implies a.subrange(a.len() - 12, a.len() as int)[i] == separator_head()[i] by {
                    assert(p[j + i] == sep[i]);
                }
            }
        }
    }
}

/// An EAPI response decrypts to the body that the request carried: what
/// `eapi_decrypt` gives for the encrypted payload of `url` and `json` is
/// `json`, where neither holds the separator, and neither ends with the
/// separator without its last character (which would run into the
/// separator that follows) — given that AES decryption undoes encryption
/// under the EAPI key.
pub proof fn law_eapi_decrypt_undoes_encrypt(url: Seq<char>, json: Seq<char>)
    requires
        aes_block_inverse(eapi_key()),
        !contains_seq(url, eapi_separator()),
        !contains_seq(json, eapi_separator()),
        !ends_with_seq(url, separator_head()),
        !ends_with_seq(json, separator_head()),
    ensures
        spec_eapi_decrypt(spec_ecb_encrypt(encode_utf8(eapi_payload(url, json)), eapi_key())) == Some(json),
{
    reveal_strlit("-36cd479b6b5-");
    let sep = eapi_separator();
    let payload = eapi_payload(url, json);
    let h = hex_lower(md5_digest(encode_utf8(eapi_message(url, json))));
    law_ecb_roundtrip(encode_utf8(payload), eapi_key());
    encode_utf8_valid_utf8(payload);
    encode_utf8_decode_utf8(payload);
    assert(read_utf8_lossy(encode_utf8(payload)) == payload);
    let u = url.len() as int;
    let q = u + 13 + json.len();
    assert(payload =~= url + sep + (json + sep + h));
    assert forall|j: int| 0 <= j < u implies !occurs_at(payload, sep, j) by {
        lemma_no_early_separator(url, json + sep + h, j);
    }
    assert(occurs_at(payload, sep, u)) by {
        assert(payload.subrange(u, u + 13) =~= sep);
    }
    lemma_first_occurrence_from(payload, sep, 0, Some(u));
    let tail = payload.subrange(u + 13, payload.len() as int);
    assert(tail =~= json + sep + h);
    assert forall|j: int| u + 13 <= j < q implies !occurs_at(payload, sep, j) by {
        lemma_no_early_separator(json, h, j - (u + 13));
        if occurs_at(payload, sep, j) {
            assert(tail.subrange(j - (u + 13), j - (u + 13) + 13) =~= payload.subrange(j, j + 13));
            assert(occurs_at(json + sep + h, sep, j - (u + 13)));
        }
    }
    assert(occurs_at(payload, sep, q)) by {
        assert(payload.subrange(q, q + 13) =~= sep);
    }
    lemma_first_occurrence_from(payload, sep, u + 13, Some(q));
    assert(payload.subrange(u + 13, q) =~= json);
}

/// An EAPI response that is empty or not made of whole 16-byte blocks
/// decrypts to nothing.
pub proof fn law_eapi_decrypt_refuses_partial_blocks(data: Seq<u8>)
    requires
        data.len() == 0 || data.len() % 16 != 0,
    ensures
        spec_eapi_decrypt(data) is None,
{
}

/// The number that little-endian bytes denote: the first byte is the least
/// significant.
pub open spec fn le_value(b: Seq<u8>) -> nat
    decreases b.len(),
{
    if b.len() == 0 {
        0
    } else {
        (b[0] + 256 * le_value(b.drop_first())) as nat
    }
}

proof fn lemma_reversed_be_is_le(b: Seq<u8>)
    ensures
        be_value(b.reverse()) == le_value(b),
    decreases b.len(),
{
    if b.len() > 0 {
        lemma_reversed_be_is_le(b.drop_first());
        assert(b.reverse().drop_last() =~= b.drop_first().reverse());
        assert(b.reverse().last() == b[0]);
    }
}

/// The WEAPI `encSecKey` is RSA with exponent 65537 over the public modulus
/// applied to the key read as a little-endian number (its last byte the
/// most significant), in lowercase hexadecimal padded to 256 digits.
pub proof fn law_weapi_sec_key_is_rsa_of_reversed_key(key: Seq<u8>)
    ensures
        weapi_sec_key(key) == zero_padded(
            lower_hex_nat((pow(le_value(key) as int, 65537) % (be_value(rsa_modulus()) as int)) as nat),
            256,
        ),
{
    lemma_reversed_be_is_le(key);
    assert(be_value(rsa_exponent()) == 65537) by {
        reveal_with_fuel(be_value, 4);
        let e = rsa_exponent();
        assert(e.drop_last() =~= seq![1u8, 0]);
        assert(e.drop_last().drop_last() =~= seq![1u8]);
        assert(e.drop_last().drop_last().drop_last() =~= Seq::<u8>::empty());
    }
}

} // verus!
