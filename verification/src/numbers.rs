//! Decimal integers: parsing with the rules of `str::parse` for the unsigned
//! and signed primitive types, and formatting as with `Display`.

use vstd::prelude::*;

verus! {

pub open spec fn is_digit(c: char) -> bool {
    48 <= (c as u32) <= 57
}

pub open spec fn digit_of(c: char) -> nat {
    ((c as u32) - 48) as nat
}

pub open spec fn all_digits(s: Seq<char>) -> bool {
    forall|i: int| 0 <= i < s.len() ==> is_digit(#[trigger] s[i])
}

/// The number a string of decimal digits denotes.
pub open spec fn digits_value(s: Seq<char>) -> nat
    decreases s.len(),
{
    if s.len() == 0 {
        0
    } else {
        digits_value(s.drop_last()) * 10 + digit_of(s.last())
    }
}

/// What `str::parse` gives for an unsigned type whose largest value is `max`:
/// an optional `+`, then at least one digit and nothing else, with a value
/// no larger than `max`.
pub open spec fn unsigned_value(s: Seq<char>, max: nat) -> Option<nat> {
    let d = if s.len() > 1 && s[0] == '+' { s.drop_first() } else { s };
    if d.len() > 0 && all_digits(d) && digits_value(d) <= max {
        Some(digits_value(d))
    } else {
        None
    }
}

/// What `str::parse` gives for a signed type with bounds `[-(max+1), max]`:
/// an optional `+` or `-`, then at least one digit and nothing else.
pub open spec fn signed_value(s: Seq<char>, max: nat) -> Option<int> {
    if s.len() > 1 && s[0] == '-' {
        let d = s.drop_first();
        if all_digits(d) && digits_value(d) <= max + 1 {
            Some(-(digits_value(d) as int))
        } else {
            None
        }
    } else {
        match unsigned_value(s, max) {
            Some(v) => Some(v as int),
            None => None,
        }
    }
}

pub open spec fn parse_u32_spec(s: Seq<char>) -> Option<u32> {
    match unsigned_value(s, u32::MAX as nat) {
        Some(v) => Some(v as u32),
        None => None,
    }
}

pub open spec fn parse_u64_spec(s: Seq<char>) -> Option<u64> {
    match unsigned_value(s, u64::MAX as nat) {
        Some(v) => Some(v as u64),
        None => None,
    }
}

pub open spec fn parse_i32_spec(s: Seq<char>) -> Option<i32> {
    match signed_value(s, i32::MAX as nat) {
        Some(v) => Some(v as i32),
        None => None,
    }
}

proof fn lemma_digits_value_grows(s: Seq<char>, c: char)
    requires
        is_digit(c),
    ensures
        digits_value(s.push(c)) == digits_value(s) * 10 + digit_of(c),
        digits_value(s.push(c)) >= digits_value(s),
{
    assert(s.push(c).drop_last() =~= s);
}

/// Value of the digit string `s[from..]`, or `None` when it holds a
/// non-digit, is empty, or exceeds `max`.
fn digits_from(s: &str, from: usize, max: u64) -> (r: Option<u64>)
    requires
        from <= s@.len(),
    ensures
        ({
            let d = s@.subrange(from as int, s@.len() as int);
            match r {
                Some(v) => d.len() > 0 && all_digits(d) && digits_value(d) <= max && v
                    == digits_value(d),
                None => !(d.len() > 0 && all_digits(d) && digits_value(d) <= max),
            }
        }),
{
    let n = s.unicode_len();
    if from == n {
        return None;
    }
    let ghost whole = s@.subrange(from as int, n as int);
    let mut acc: u128 = 0;
    let mut i: usize = from;
    while i < n
        invariant
            n == s@.len(),
            from < n,
            from <= i <= n,
            whole == s@.subrange(from as int, n as int),
            all_digits(s@.subrange(from as int, i as int)),
            acc == digits_value(s@.subrange(from as int, i as int)),
            acc <= max,
        decreases n - i,
    {
        let c = s.get_char(i);
        let u = c as u32;
        proof {
            assert(s@.subrange(from as int, i + 1) =~= s@.subrange(from as int, i as int).push(c));
        }
        if u < 48 || u > 57 {
            proof {
                assert(whole[i - from] == c);
            }
            return None;
        }
        proof {
            lemma_digits_value_grows(s@.subrange(from as int, i as int), c);
        }
        acc = acc * 10 + (u - 48) as u128;
        if acc > max as u128 {
            proof {
                if all_digits(whole) {
                    lemma_prefix_bound(whole, (i + 1 - from) as int);
                    assert(whole.subrange(0, (i + 1 - from) as int) =~= s@.subrange(
                        from as int,
                        i + 1,
                    ));
                }
            }
            return None;
        }
        i = i + 1;
    }
    Some(acc as u64)
}

/// A digit string is worth at least as much as any of its prefixes.
proof fn lemma_prefix_bound(s: Seq<char>, k: int)
    requires
        0 <= k <= s.len(),
        all_digits(s),
    ensures
        digits_value(s) >= digits_value(s.subrange(0, k)),
    decreases s.len() - k,
{
    if k < s.len() {
        lemma_prefix_bound(s, k + 1);
        assert(s.subrange(0, k + 1) =~= s.subrange(0, k).push(s[k]));
        lemma_digits_value_grows(s.subrange(0, k), s[k]);
    } else {
        assert(s.subrange(0, k) =~= s);
    }
}

/// Unsigned decimal parse with an explicit upper bound.
pub fn parse_unsigned(s: &str, max: u64) -> (r: Option<u64>)
    ensures
        match unsigned_value(s@, max as nat) {
            Some(v) => r == Some(v as u64),
            None => r is None,
        },
{
    let n = s.unicode_len();
    if n > 1 && s.get_char(0) == '+' {
        let r = digits_from(s, 1, max);
        proof {
            assert(s@.subrange(1, n as int) =~= s@.drop_first());
        }
        r
    } else {
        let r = digits_from(s, 0, max);
        proof {
            assert(s@.subrange(0, n as int) =~= s@);
        }
        r
    }
}

pub fn parse_u32(s: &str) -> (r: Option<u32>)
    ensures
        r == parse_u32_spec(s@),
{
    match parse_unsigned(s, 4294967295u64) {
        Some(v) => Some(v as u32),
        None => None,
    }
}

pub fn parse_u64(s: &str) -> (r: Option<u64>)
    ensures
        r == parse_u64_spec(s@),
{
    parse_unsigned(s, 18446744073709551615u64)
}

pub fn parse_i32(s: &str) -> (r: Option<i32>)
    ensures
        r == parse_i32_spec(s@),
{
    let n = s.unicode_len();
    if n > 1 && s.get_char(0) == '-' {
        let m = digits_from(s, 1, 2147483648u64);
        proof {
            assert(s@.subrange(1, n as int) =~= s@.drop_first());
        }
        match m {
            Some(v) => {
                let w = (0i64 - v as i64) as i32;
                Some(w)
            },
            None => None,
        }
    } else {
        match parse_unsigned(s, 2147483647u64) {
            Some(v) => Some(v as i32),
            None => None,
        }
    }
}

// ─── formatting ──────────────────────────────────────────────────────────────

pub open spec fn digit_char(d: nat) -> char {
    ((48 + d) as u32) as char
}

/// Decimal digits of `n`, most significant first, without leading zeros.
pub open spec fn dec_string(n: nat) -> Seq<char>
    decreases n,
{
    if n < 10 {
        seq![digit_char(n)]
    } else {
        dec_string(n / 10).push(digit_char(n % 10))
    }
}

/// Decimal text of a signed value, with a leading `-` when negative.
pub open spec fn signed_string(v: int) -> Seq<char> {
    if v < 0 {
        seq!['-'] + dec_string((-v) as nat)
    } else {
        dec_string(v as nat)
    }
}

fn digit_piece(d: u64) -> (r: &'static str)
    requires
        d < 10,
    ensures
        r@ == seq![digit_char(d as nat)],
{
    let digits = "0123456789";
    proof {
        reveal_strlit("0123456789");
    }
    let r = digits.substring_char(d as usize, (d + 1) as usize);
    proof {
        let c = digits@[d as int];
        vstd::utf8::char_u32_cast(c, (48 + d) as u32);
        assert(r@ =~= seq![digit_char(d as nat)]);
    }
    r
}

/// `Display` text of an unsigned integer.
pub fn fmt_u64(v: u64) -> (r: String)
    ensures
        r@ == dec_string(v as nat),
{
    if v < 10 {
        return String::from_str(digit_piece(v));
    }
    let mut n = v;
    let mut acc = String::new();
    while n >= 10
        invariant
            n >= 1,
            dec_string(v as nat) == dec_string(n as nat) + acc@,
        decreases n,
    {
        let d = n % 10;
        let piece = digit_piece(d);
        acc = String::from_str(piece).concat(acc.as_str());
        proof {
            assert(dec_string(n as nat) == dec_string((n / 10) as nat).push(digit_char(d as nat)));
        }
        n = n / 10;
        proof {
            assert(dec_string(v as nat) =~= dec_string(n as nat) + acc@);
        }
    }
    String::from_str(digit_piece(n)).concat(acc.as_str())
}

/// `Display` text of a signed integer.
pub fn fmt_i64(v: i64) -> (r: String)
    ensures
        r@ == signed_string(v as int),
{
    if v < 0 {
        let m = (0i128 - v as i128) as u64;
        proof {
            reveal_strlit("-");
        }
        String::from_str("-").concat(fmt_u64(m).as_str())
    } else {
        fmt_u64(v as u64)
    }
}

} // verus!
