//! Decimal-digit arithmetic: digit counts, powers of ten, and the
//! digit-prepend operation that the composition loop uses, together with
//! the character-level view of a single digit.

use vstd::prelude::*;

verus! {

/// How many decimal digits a non-negative integer has; zero has one digit.
pub open spec fn digit_count(n: int) -> nat
    recommends
        n >= 0,
    decreases n,
{
    if n < 10 {
        1
    } else {
        1 + digit_count(n / 10)
    }
}

/// Ten raised to `k`.
pub open spec fn pow10(k: nat) -> int
    decreases k,
{
    if k == 0 {
        1
    } else {
        10 * pow10((k - 1) as nat)
    }
}

/// The value whose decimal text is the digit `d` written in front of the
/// decimal text of `n`.
pub open spec fn prepended(d: int, n: int) -> int {
    d * pow10(digit_count(n)) + n
}

pub proof fn lemma_pow10_pos(k: nat)
    ensures
        pow10(k) >= 1,
    decreases k,
{
    if k > 0 {
        lemma_pow10_pos((k - 1) as nat);
    }
}

pub proof fn lemma_pow10_mono(a: nat, b: nat)
    requires
        a <= b,
    ensures
        pow10(a) <= pow10(b),
    decreases b,
{
    if a < b {
        lemma_pow10_mono(a, (b - 1) as nat);
        lemma_pow10_pos((b - 1) as nat);
    }
}

/// A value below `pow10(k)` has at most `k` digits.
pub proof fn lemma_digit_count_le(n: int, k: nat)
    requires
        0 <= n,
        n < pow10(k),
        k >= 1,
    ensures
        digit_count(n) <= k,
    decreases k,
{
    if n >= 10 {
        if k == 1 {
            assert(pow10(1) == 10);
            assert(false);
        }
        assert(pow10(k) == 10 * pow10((k - 1) as nat));
        lemma_digit_count_le(n / 10, (k - 1) as nat);
    }
}

pub proof fn lemma_digit_count_pos(n: int)
    ensures
        digit_count(n) >= 1,
{
}

/// Every `u64` value has at most 20 decimal digits.
pub proof fn lemma_digit_count_u64(n: int)
    requires
        0 <= n <= u64::MAX,
    ensures
        1 <= digit_count(n) <= 20,
{
    reveal_with_fuel(pow10, 21);
    assert(pow10(20) == 100000000000000000000);
    lemma_digit_count_le(n, 20);
}

/// Every `u128` value has at most 39 decimal digits.
pub proof fn lemma_digit_count_u128(n: int)
    requires
        0 <= n <= u128::MAX,
    ensures
        1 <= digit_count(n) <= 39,
{
    reveal_with_fuel(pow10, 40);
    assert(pow10(39) > u128::MAX);
    lemma_digit_count_le(n, 39);
}

/// Counts the decimal digits of `n`.
pub fn digit_count_u128(n: u128) -> (r: usize)
    ensures
        r == digit_count(n as int),
{
    proof {
        lemma_digit_count_u128(n as int);
    }
    let mut m: u128 = n;
    let mut c: usize = 1;
    while m >= 10
        invariant
            1 <= c <= 39,
            digit_count(n as int) == (c - 1) + digit_count(m as int),
            c - 1 + digit_count(m as int) <= 39,
        decreases m,
    {
        proof {
            assert(digit_count(m as int) == 1 + digit_count((m as int) / 10));
            lemma_digit_count_pos((m as int) / 10);
        }
        m = m / 10;
        c = c + 1;
    }
    c
}

/// Computes `pow10(k)` exactly.
pub fn pow10_u128(k: usize) -> (r: u128)
    requires
        k <= 38,
    ensures
        r == pow10(k as nat),
{
    let mut i: usize = 0;
    let mut r: u128 = 1;
    while i < k
        invariant
            i <= k <= 38,
            r == pow10(i as nat),
        decreases k - i,
    {
        proof {
            lemma_pow10_mono((i + 1) as nat, 38);
            reveal_with_fuel(pow10, 39);
            assert(pow10(38) <= u128::MAX);
        }
        r = r * 10;
        i = i + 1;
    }
    r
}

/// Computes the prepended value exactly, for any starting value that fits
/// a `u64`; the result always fits a `u128`.
pub fn prepend_u128(n: u128, rhs: u128) -> (r: u128)
    requires
        n <= u64::MAX,
        rhs <= 9,
    ensures
        r == prepended(rhs as int, n as int),
{
    proof {
        lemma_digit_count_u64(n as int);
    }
    let k = digit_count_u128(n);
    let p = pow10_u128(k);
    proof {
        lemma_pow10_mono(k as nat, 20);
        reveal_with_fuel(pow10, 21);
        assert(pow10(20) == 100000000000000000000);
        assert((rhs as int) * (p as int) <= 9 * 100000000000000000000) by (nonlinear_arith)
            requires
                0 <= rhs as int <= 9,
                0 <= p as int <= 100000000000000000000,
        ;
    }
    rhs * p + n
}

/// Whether `c` is one of the ten decimal digit characters.
pub open spec fn is_digit_char(c: char) -> bool {
    48 <= c as u32 <= 57
}

/// The numeric value of a decimal digit character.
pub open spec fn digit_val(c: char) -> int {
    c as u32 - 48
}

/// The decimal digit character whose numeric value is `d`.
pub open spec fn char_of_digit(d: int) -> char
    recommends
        0 <= d <= 9,
{
    ((48 + d) as u32) as char
}

/// Rendering a parsed digit character gives back exactly that character,
/// so a sampled digit's decimal text is the single character it was read
/// from; conversely every digit value renders to a digit character that
/// parses back to itself.
pub proof fn lemma_digit_char_round_trip(c: char, d: int)
    requires
        is_digit_char(c),
        0 <= d <= 9,
    ensures
        char_of_digit(digit_val(c)) == c,
        is_digit_char(char_of_digit(d)),
        digit_val(char_of_digit(d)) == d,
        digit_count(d) == 1,
{
    vstd::utf8::char_u32_cast(c, c as u32);
}

/// Parses a decimal digit character to its value.
pub fn char_digit(c: char) -> (r: Option<u8>)
    ensures
        is_digit_char(c) <==> (r matches Some(d) && d == digit_val(c)),
        r is Some ==> r->0 <= 9,
{
    let u = c as u32;
    if 48 <= u && u <= 57 {
        Some((u - 48) as u8)
    } else {
        None
    }
}

/// Parses the last character of `s` as a decimal digit: `Some` exactly
/// when `s` is non-empty and ends in a digit character.
pub fn last_char_digit(s: &str) -> (r: Option<u8>)
    ensures
        (s@.len() > 0 && is_digit_char(s@.last())) <==> (r matches Some(d) && d
            == digit_val(s@.last())),
        r is Some ==> r->0 <= 9,
{
    let n = s.unicode_len();
    if n == 0 {
        return None;
    }
    let c = s.get_char(n - 1);
    char_digit(c)
}

} // verus!
