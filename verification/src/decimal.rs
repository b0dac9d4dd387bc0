use vstd::prelude::*;
use crate::text::{to_chars, from_chars, all_digits, dec_value, is_digit, digit_val};

verus! {

// ===== parsing, as `str::parse::<u64>` / `str::parse::<i64>` accept it =====

/// The digits of an unsigned decimal literal: an optional `+` dropped.
pub open spec fn unsigned_body(s: Seq<char>) -> Seq<char> {
    if s.len() > 0 && s[0] == '+' { s.drop_first() } else { s }
}

/// What `s.parse::<u64>().ok()` returns.
pub open spec fn spec_parse_u64(s: Seq<char>) -> Option<u64> {
    let body = unsigned_body(s);
    if body.len() > 0 && all_digits(body) && dec_value(body) <= u64::MAX {
        Some(dec_value(body) as u64)
    } else {
        None
    }
}

/// Whether `s` begins with a minus sign.
pub open spec fn is_negative_literal(s: Seq<char>) -> bool {
    s.len() > 0 && s[0] == '-'
}

/// The digits of a signed decimal literal: an optional `+` or `-` dropped.
pub open spec fn signed_body(s: Seq<char>) -> Seq<char> {
    if s.len() > 0 && (s[0] == '+' || s[0] == '-') { s.drop_first() } else { s }
}

/// What `s.parse::<i64>().ok()` returns.
pub open spec fn spec_parse_i64(s: Seq<char>) -> Option<i64> {
    let body = signed_body(s);
    if body.len() > 0 && all_digits(body) {
        if is_negative_literal(s) {
            if dec_value(body) <= 0x8000_0000_0000_0000 {
                Some((0 - dec_value(body)) as i64)
            } else {
                None
            }
        } else if dec_value(body) <= i64::MAX {
            Some(dec_value(body) as i64)
        } else {
            None
        }
    } else {
        None
    }
}

proof fn lemma_dec_value_prefix_grows(s: Seq<char>, k: int)
    requires
        0 <= k <= s.len(),
        all_digits(s),
    ensures
        dec_value(s.take(k)) <= dec_value(s),
    decreases s.len() - k,
{
    if k < s.len() {
        lemma_dec_value_prefix_grows(s, k + 1);
        assert(s.take(k + 1).drop_last() =~= s.take(k));
    } else {
        assert(s.take(k) =~= s);
    }
}

/// The value of the digits `v[from..to]`, or `None` when a character is no
/// digit or the value exceeds `limit`.
fn digits_value_upto(v: &[char], from: usize, to: usize, limit: u64) -> (r: Option<u64>)
    requires
        from <= to <= v.len(),
        limit >= 9,
    ensures
        match r {
            Some(n) => all_digits(v@.subrange(from as int, to as int))
                && n == dec_value(v@.subrange(from as int, to as int)) && n <= limit,
            None => !all_digits(v@.subrange(from as int, to as int))
                || dec_value(v@.subrange(from as int, to as int)) > limit,
        },
{
    let ghost s = v@.subrange(from as int, to as int);
    let mut acc: u64 = 0;
    let mut i: usize = from;
    while i < to
        invariant
            from <= i <= to <= v.len(),
            s == v@.subrange(from as int, to as int),
            all_digits(s.take(i - from)),
            acc == dec_value(s.take(i - from)),
            acc <= limit,
            limit >= 9,
        decreases to - i,
    {
        let c = v[i];
        assert(s[i - from] == c);
        if !('0' <= c && c <= '9') {
            return None;
        }
        let d = (c as u32 - '0' as u32) as u64;
        assert(d <= 9);
        assert(s.take(i - from + 1).drop_last() =~= s.take(i - from));
        assert(dec_value(s.take(i - from + 1)) == acc * 10 + d);
        assert(all_digits(s.take(i - from + 1)));
        if acc > (limit - d) / 10 {
            assert(acc * 10 + d > limit) by (nonlinear_arith)
                requires acc > (limit - d) / 10, d <= 9, d <= limit || acc * 10 + d > limit;
            proof {
                if all_digits(s) {
                    lemma_dec_value_prefix_grows(s, i - from + 1);
                }
            }
            return None;
        }
        assert(acc * 10 + d <= limit) by (nonlinear_arith)
            requires acc <= (limit - d) / 10, d <= limit;
        acc = acc * 10 + d;
        i = i + 1;
    }
    assert(s.take(to - from) =~= s);
    Some(acc)
}

/// `s.parse::<u64>().ok()`: an optional `+`, then one or more ASCII digits,
/// with a value that fits in 64 bits.
pub fn parse_u64(s: &str) -> (r: Option<u64>)
    ensures
        r == spec_parse_u64(s@),
{
    let v = to_chars(s);
    let start: usize = if v.len() > 0 && v[0] == '+' { 1 } else { 0 };
    assert(unsigned_body(s@) =~= v@.subrange(start as int, v.len() as int));
    if start == v.len() {
        return None;
    }
    digits_value_upto(v.as_slice(), start, v.len(), u64::MAX)
}

/// `s.parse::<i64>().ok()`: an optional `+` or `-`, then one or more ASCII
/// digits, with a value in the range of `i64`.
pub fn parse_i64(s: &str) -> (r: Option<i64>)
    ensures
        r == spec_parse_i64(s@),
{
    let v = to_chars(s);
    let neg = v.len() > 0 && v[0] == '-';
    let start: usize = if v.len() > 0 && (v[0] == '+' || v[0] == '-') { 1 } else { 0 };
    assert(signed_body(s@) =~= v@.subrange(start as int, v.len() as int));
    if start == v.len() {
        return None;
    }
    if neg {
        match digits_value_upto(v.as_slice(), start, v.len(), 0x8000_0000_0000_0000) {
            Some(n) => {
                if n == 0x8000_0000_0000_0000 {
                    Some(i64::MIN)
                } else {
                    Some(-(n as i64))
                }
            },
            None => None,
        }
    } else {
        match digits_value_upto(v.as_slice(), start, v.len(), 0x7fff_ffff_ffff_ffff) {
            Some(n) => Some(n as i64),
            None => None,
        }
    }
}

// ===== formatting, as `Display` for integers writes them =====

pub open spec fn digit_char(d: nat) -> char {
    (('0' as int) + d) as char
}

/// Decimal digits of `n`, most significant first, without leading zeros.
pub open spec fn nat_decimal(n: nat) -> Seq<char>
    decreases n,
{
    if n < 10 {
        seq![digit_char(n)]
    } else {
        nat_decimal(n / 10).push(digit_char(n % 10))
    }
}

/// `x.to_string()` for an integer `x`.
pub open spec fn int_decimal(x: int) -> Seq<char> {
    if x < 0 {
        seq!['-'] + nat_decimal((0 - x) as nat)
    } else {
        nat_decimal(x as nat)
    }
}

fn push_decimal(out: &mut Vec<char>, n: u64)
    ensures
        final(out)@ == old(out)@ + nat_decimal(n as nat),
    decreases n,
{
    if n >= 10 {
        push_decimal(out, n / 10);
    }
    let d = (n % 10) as u8;
    let ch = (48u8 + d) as char;
    assert(ch == digit_char((n % 10) as nat));
    out.push(ch);
}

/// `n.to_string()` for `n: u64`.
pub fn u64_to_string(n: u64) -> (r: String)
    ensures
        r@ == nat_decimal(n as nat),
{
    let mut v: Vec<char> = Vec::new();
    push_decimal(&mut v, n);
    assert(v@ =~= nat_decimal(n as nat));
    from_chars(v.as_slice())
}

/// `x.to_string()` for `x: i64`.
pub fn i64_to_string(x: i64) -> (r: String)
    ensures
        r@ == int_decimal(x as int),
{
    let mut v: Vec<char> = Vec::new();
    if x < 0 {
        v.push('-');
        let m: u64 = if x == i64::MIN { 0x8000_0000_0000_0000 } else { (-x) as u64 };
        push_decimal(&mut v, m);
        assert(v@ =~= seq!['-'] + nat_decimal((0 - x) as nat));
    } else {
        push_decimal(&mut v, x as u64);
        assert(v@ =~= nat_decimal(x as nat));
    }
    from_chars(v.as_slice())
}

// ===== laws =====

proof fn lemma_nat_decimal_digits(n: nat)
    ensures
        nat_decimal(n).len() > 0,
        all_digits(nat_decimal(n)),
        dec_value(nat_decimal(n)) == n,
    decreases n,
{
    if n >= 10 {
        lemma_nat_decimal_digits(n / 10);
        let s = nat_decimal(n);
        assert(s.drop_last() == nat_decimal(n / 10));
        assert(digit_val(digit_char(n % 10)) == n % 10);
        assert((n / 10) * 10 + n % 10 == n) by (nonlinear_arith);
        assert(s.last() == digit_char(n % 10));
        assert(dec_value(s) == dec_value(s.drop_last()) * 10 + digit_val(s.last()));
        assert(dec_value(s.drop_last()) == n / 10);
        assert(dec_value(s) == n);
        assert forall|i: int| 0 <= i < s.len() implies is_digit(#[trigger] s[i]) by {
            if i < s.len() - 1 {
                assert(s[i] == nat_decimal(n / 10)[i]);
            }
        }
    } else {
        assert(nat_decimal(n).drop_last() =~= Seq::<char>::empty());
        let s = nat_decimal(n);
        assert(s == seq![digit_char(n)]);
        assert(s.len() == 1);
        assert(s.drop_last() =~= Seq::<char>::empty());
        assert(dec_value(s.drop_last()) == 0);
        assert(s.last() == digit_char(n));
        assert(digit_val(digit_char(n)) == n);
        assert(dec_value(s) == dec_value(s.drop_last()) * 10 + digit_val(s.last()));
    }
}

/// Reading back what `i64::to_string` writes gives the number again.
pub proof fn law_i64_decimal_roundtrip(x: i64)
    ensures
        spec_parse_i64(int_decimal(x as int)) == Some(x),
{
    let s = int_decimal(x as int);
    if x < 0 {
        let m = (0 - x) as nat;
        lemma_nat_decimal_digits(m);
        assert(signed_body(s) =~= nat_decimal(m));
    } else {
        lemma_nat_decimal_digits(x as nat);
        assert(nat_decimal(x as nat)[0] != '+' && nat_decimal(x as nat)[0] != '-');
        assert(signed_body(s) =~= nat_decimal(x as nat));
    }
}

/// Reading back what `u64::to_string` writes gives the number again.
pub proof fn law_u64_decimal_roundtrip(n: u64)
    ensures
        spec_parse_u64(nat_decimal(n as nat)) == Some(n),
{
    lemma_nat_decimal_digits(n as nat);
    assert(nat_decimal(n as nat)[0] != '+');
}

} // verus!
