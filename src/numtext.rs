//! Decimal numbers as text: rendering, and parsing out of ASCII byte buffers.
use vstd::prelude::*;

verus! {

/// The character of decimal digit `d`.
pub open spec fn digit_char(d: nat) -> char {
    if d == 0 { '0' }
    else if d == 1 { '1' }
    else if d == 2 { '2' }
    else if d == 3 { '3' }
    else if d == 4 { '4' }
    else if d == 5 { '5' }
    else if d == 6 { '6' }
    else if d == 7 { '7' }
    else if d == 8 { '8' }
    else { '9' }
}

/// The decimal text of `n`, without leading zeros.
pub open spec fn decimal_spec(n: nat) -> Seq<char>
    decreases n,
{
    if n < 10 {
        seq![digit_char(n)]
    } else {
        decimal_spec(n / 10) + seq![digit_char(n % 10)]
    }
}

fn digit_str(d: u64) -> (r: &'static str)
    requires
        d < 10,
    ensures
        r@ == seq![digit_char(d as nat)],
{
    proof {
        reveal_strlit("0");
        reveal_strlit("1");
        reveal_strlit("2");
        reveal_strlit("3");
        reveal_strlit("4");
        reveal_strlit("5");
        reveal_strlit("6");
        reveal_strlit("7");
        reveal_strlit("8");
        reveal_strlit("9");
    }
    if d == 0 { "0" }
    else if d == 1 { "1" }
    else if d == 2 { "2" }
    else if d == 3 { "3" }
    else if d == 4 { "4" }
    else if d == 5 { "5" }
    else if d == 6 { "6" }
    else if d == 7 { "7" }
    else if d == 8 { "8" }
    else { "9" }
}

/// The decimal text of `n`.
pub fn decimal(n: u64) -> (r: String)
    ensures
        r@ == decimal_spec(n as nat),
    decreases n,
{
    if n < 10 {
        String::from_str(digit_str(n))
    } else {
        let mut s = decimal(n / 10);
        s.append(digit_str(n % 10));
        s
    }
}

/// The decimal text of a signed number, with a leading `-` when negative.
pub open spec fn signed_decimal_spec(n: int) -> Seq<char> {
    if n >= 0 {
        decimal_spec(n as nat)
    } else {
        seq!['-'] + decimal_spec((-n) as nat)
    }
}

/// The decimal text of `n`.
pub fn signed_decimal(n: i32) -> (r: String)
    ensures
        r@ == signed_decimal_spec(n as int),
{
    if n >= 0 {
        decimal(n as u64)
    } else {
        let m: i64 = 0i64 - (n as i64);
        let mut s = String::from_str("-");
        proof {
            reveal_strlit("-");
        }
        s.append(decimal(m as u64).as_str());
        s
    }
}

/// ASCII white space, as `char::is_whitespace` sees it among ASCII bytes.
pub open spec fn is_ascii_ws(b: u8) -> bool {
    b == 0x20 || (0x09 <= b && b <= 0x0d)
}

/// An ASCII decimal digit.
pub open spec fn is_digit(b: u8) -> bool {
    0x30 <= b && b <= 0x39
}

/// The first index at or after `i` and before `hi` that is not white space (else `hi`).
pub open spec fn ws_end(s: Seq<u8>, i: int, hi: int) -> int
    decreases hi - i,
{
    if 0 <= i < hi && i < s.len() && is_ascii_ws(s[i]) {
        ws_end(s, i + 1, hi)
    } else {
        i
    }
}

/// The first index at or after `i` and before `hi` that is white space (else `hi`).
pub open spec fn token_end(s: Seq<u8>, i: int, hi: int) -> int
    decreases hi - i,
{
    if 0 <= i < hi && i < s.len() && !is_ascii_ws(s[i]) {
        token_end(s, i + 1, hi)
    } else {
        i
    }
}

/// Whether `s[lo..hi]` is all decimal digits.
pub open spec fn all_digits(s: Seq<u8>, lo: int, hi: int) -> bool {
    forall|k: int| lo <= k < hi ==> is_digit(#[trigger] s[k])
}

/// The value of the decimal digits `s[lo..hi]`.
pub open spec fn digits_value(s: Seq<u8>, lo: int, hi: int) -> nat
    decreases hi - lo,
{
    if hi <= lo {
        0
    } else {
        digits_value(s, lo, hi - 1) * 10 + ((s[hi - 1] - 0x30) as nat)
    }
}

/// What `u64::from_str` gives for the text `s[lo..hi]`: an optional `+`,
/// then at least one digit, with a value that fits.
pub open spec fn parse_u64_spec(s: Seq<u8>, lo: int, hi: int) -> Option<u64> {
    let start = if lo < hi && s[lo] == 0x2b { lo + 1 } else { lo };
    if start < hi && all_digits(s, start, hi) && digits_value(s, start, hi) <= u64::MAX {
        Some(digits_value(s, start, hi) as u64)
    } else {
        None
    }
}

proof fn lemma_digits_value_grows(s: Seq<u8>, lo: int, i: int, j: int)
    requires
        lo <= i <= j <= s.len(),
        0 <= lo,
        all_digits(s, lo, j),
    ensures
        digits_value(s, lo, i) <= digits_value(s, lo, j),
    decreases j - i,
{
    if i < j {
        lemma_digits_value_grows(s, lo, i, j - 1);
        assert(is_digit(s[j - 1]));
    }
}

/// Skips white space from `i`, up to `hi`.
pub fn skip_ws(s: &[u8], i: usize, hi: usize) -> (r: usize)
    requires
        i <= hi <= s@.len(),
    ensures
        r == ws_end(s@, i as int, hi as int),
        i <= r <= hi,
{
    let mut k = i;
    while k < hi && (s[k] == 0x20 || (0x09 <= s[k] && s[k] <= 0x0d))
        invariant
            i <= k <= hi <= s@.len(),
            ws_end(s@, k as int, hi as int) == ws_end(s@, i as int, hi as int),
        decreases hi - k,
    {
        k = k + 1;
    }
    k
}

/// Skips a token (non-white-space bytes) from `i`, up to `hi`.
pub fn skip_token(s: &[u8], i: usize, hi: usize) -> (r: usize)
    requires
        i <= hi <= s@.len(),
    ensures
        r == token_end(s@, i as int, hi as int),
        i <= r <= hi,
{
    let mut k = i;
    while k < hi && !(s[k] == 0x20 || (0x09 <= s[k] && s[k] <= 0x0d))
        invariant
            i <= k <= hi <= s@.len(),
            token_end(s@, k as int, hi as int) == token_end(s@, i as int, hi as int),
        decreases hi - k,
    {
        k = k + 1;
    }
    k
}

/// Parses `s[lo..hi]` as a `u64`, as `u64::from_str` does.
pub fn parse_u64(s: &[u8], lo: usize, hi: usize) -> (r: Option<u64>)
    requires
        lo <= hi <= s@.len(),
    ensures
        r == parse_u64_spec(s@, lo as int, hi as int),
{
    let start = if lo < hi && s[lo] == 0x2b { lo + 1 } else { lo };
    if start >= hi {
        return None;
    }
    let mut v: u64 = 0;
    let mut i = start;
    while i < hi
        invariant
            start <= i <= hi <= s@.len(),
            lo <= start,
            start as int == (if lo < hi && s@[lo as int] == 0x2b { lo + 1 } else { lo as int }),
            all_digits(s@, start as int, i as int),
            v as nat == digits_value(s@, start as int, i as int),
        decreases hi - i,
    {
        let b = s[i];
        assert(s@[i as int] == b);
        if !(0x30 <= b && b <= 0x39) {
            assert(!is_digit(s@[i as int]));
            assert(!all_digits(s@, start as int, hi as int));
            return None;
        }
        let d = (b - 0x30) as u64;
        if v > (u64::MAX - d) / 10 {
            proof {
                assert(digits_value(s@, start as int, i + 1) == v * 10 + d);
                assert(v * 10 + d > u64::MAX) by (nonlinear_arith)
                    requires
                        v > (u64::MAX - d) / 10,
                        d <= 9,
                ;
                if all_digits(s@, start as int, hi as int) {
                    lemma_digits_value_grows(s@, start as int, i + 1, hi as int);
                    assert(digits_value(s@, start as int, hi as int) > u64::MAX);
                }
                assert(parse_u64_spec(s@, lo as int, hi as int) is None);
            }
            return None;
        }
        proof {
            assert(v * 10 + d <= u64::MAX) by (nonlinear_arith)
                requires
                    v <= (u64::MAX - d) / 10,
                    d <= 9,
            ;
        }
        v = v * 10 + d;
        i = i + 1;
    }
    Some(v)
}

} // verus!
