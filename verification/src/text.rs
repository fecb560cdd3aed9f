//! Decimal numbers and prefixes on strings of characters.
use vstd::prelude::*;

verus! {

/// The character of a decimal digit.
pub open spec fn digit_char(d: nat) -> char {
    if d == 0 { '0' }
    else if d == 1 { '1' }
    else if d == 2 { '2' }
    else if d == 3 { '3' }
    else if d == 4 { '4' }
    else if d == 5 { '5' }
    else if d == 6 { '6' }
    else if d == 7 { '7' }
    else if d == 8 { '8' }
    else { '9' }
}

pub open spec fn is_digit(c: char) -> bool {
    '0' <= c && c <= '9'
}

pub open spec fn digit_value(c: char) -> nat {
    (c as int - '0' as int) as nat
}

/// A non-empty run of ASCII digits.
pub open spec fn all_digits(s: Seq<char>) -> bool {
    s.len() > 0 && forall|i: int| 0 <= i < s.len() ==> is_digit(#[trigger] s[i])
}

/// The number that a run of digits denotes (leading zeros allowed).
pub open spec fn digits_value(s: Seq<char>) -> nat
    decreases s.len(),
{
    if s.len() == 0 {
        0
    } else {
        digits_value(s.drop_last()) * 10 + digit_value(s.last())
    }
}

/// The decimal representation of a natural number, as `{}` formats it.
pub open spec fn nat_to_decimal(n: nat) -> Seq<char>
    decreases n,
{
    if n < 10 {
        seq![digit_char(n)]
    } else {
        nat_to_decimal(n / 10).push(digit_char(n % 10))
    }
}

/// The decimal representation of an integer, with a leading `-` when negative.
pub open spec fn int_to_decimal(n: int) -> Seq<char> {
    if n < 0 {
        seq!['-'] + nat_to_decimal((-n) as nat)
    } else {
        nat_to_decimal(n as nat)
    }
}

/// What `str::parse::<i64>` gives: an optional sign, then digits, within range.
pub open spec fn spec_parse_i64(s: Seq<char>) -> Option<i64> {
    if s.len() > 0 && s[0] == '-' {
        if all_digits(s.skip(1)) && digits_value(s.skip(1)) <= 0x8000_0000_0000_0000 {
            Some((-(digits_value(s.skip(1)) as int)) as i64)
        } else {
            None
        }
    } else if s.len() > 0 && s[0] == '+' {
        if all_digits(s.skip(1)) && digits_value(s.skip(1)) <= i64::MAX {
            Some(digits_value(s.skip(1)) as i64)
        } else {
            None
        }
    } else if all_digits(s) && digits_value(s) <= i64::MAX {
        Some(digits_value(s) as i64)
    } else {
        None
    }
}

/// What `str::parse::<usize>` gives: an optional `+`, then digits, within range.
pub open spec fn spec_parse_usize(s: Seq<char>) -> Option<usize> {
    if s.len() > 0 && s[0] == '+' {
        if all_digits(s.skip(1)) && digits_value(s.skip(1)) <= usize::MAX {
            Some(digits_value(s.skip(1)) as usize)
        } else {
            None
        }
    } else if all_digits(s) && digits_value(s) <= usize::MAX {
        Some(digits_value(s) as usize)
    } else {
        None
    }
}

/// `s` with `prefix` taken off its front, where it starts with it.
pub open spec fn spec_strip_prefix(prefix: Seq<char>, s: Seq<char>) -> Option<Seq<char>> {
    if prefix.len() <= s.len() && s.subrange(0, prefix.len() as int) == prefix {
        Some(s.skip(prefix.len() as int))
    } else {
        None
    }
}

pub open spec fn spec_starts_with(s: Seq<char>, prefix: Seq<char>) -> bool {
    prefix.len() <= s.len() && s.subrange(0, prefix.len() as int) == prefix
}

// ---------------------------------------------------------------------------
// lemmas

pub proof fn lemma_digit_char(d: nat)
    requires
        d < 10,
    ensures
        is_digit(digit_char(d)),
        digit_value(digit_char(d)) == d,
        digit_char(d) != '-',
        digit_char(d) != '+',
{
}

pub proof fn lemma_nat_to_decimal(n: nat)
    ensures
        all_digits(nat_to_decimal(n)),
        digits_value(nat_to_decimal(n)) == n,
        nat_to_decimal(n).len() >= 1,
        nat_to_decimal(n)[0] != '-',
        nat_to_decimal(n)[0] != '+',
    decreases n,
{
    if n < 10 {
        lemma_digit_char(n);
        let s = nat_to_decimal(n);
        assert(s.drop_last() =~= Seq::<char>::empty());
        assert(digits_value(s.drop_last()) == 0);
    } else {
        lemma_nat_to_decimal(n / 10);
        lemma_digit_char(n % 10);
        let s = nat_to_decimal(n);
        let p = nat_to_decimal(n / 10);
        assert(s.drop_last() =~= p);
        assert forall|i: int| 0 <= i < s.len() implies is_digit(#[trigger] s[i]) by {
            if i < p.len() {
                assert(s[i] == p[i]);
            }
        }
        assert(s[0] == p[0]);
    }
}

/// Parsing the decimal form of a value gives the value back.
pub proof fn lemma_parse_i64_of_decimal(n: i64)
    ensures
        spec_parse_i64(int_to_decimal(n as int)) == Some(n),
{
    if n < 0 {
        let m = (-(n as int)) as nat;
        lemma_nat_to_decimal(m);
        let s = int_to_decimal(n as int);
        assert(s.skip(1) =~= nat_to_decimal(m));
    } else {
        lemma_nat_to_decimal(n as nat);
    }
}

pub proof fn lemma_parse_usize_of_decimal(n: usize)
    ensures
        spec_parse_usize(nat_to_decimal(n as nat)) == Some(n),
{
    lemma_nat_to_decimal(n as nat);
}

pub proof fn lemma_strip_prefix_concat(prefix: Seq<char>, rest: Seq<char>)
    ensures
        spec_strip_prefix(prefix, prefix + rest) == Some(rest),
        spec_starts_with(prefix + rest, prefix),
{
    assert((prefix + rest).subrange(0, prefix.len() as int) =~= prefix);
    assert((prefix + rest).skip(prefix.len() as int) =~= rest);
}

// ---------------------------------------------------------------------------
// executable functions

/// Appends one character to a string.
#[verifier::external_body]
pub(crate) fn push_char(s: &mut String, c: char)
    ensures
        final(s)@ == old(s)@.push(c),
{
    s.push(c);
}

fn digit_to_char(d: u64) -> (c: char)
    requires
        d < 10,
    ensures
        c == digit_char(d as nat),
{
    if d == 0 { '0' }
    else if d == 1 { '1' }
    else if d == 2 { '2' }
    else if d == 3 { '3' }
    else if d == 4 { '4' }
    else if d == 5 { '5' }
    else if d == 6 { '6' }
    else if d == 7 { '7' }
    else if d == 8 { '8' }
    else { '9' }
}

/// Appends the decimal form of `n` to `s`.
pub fn push_u64_decimal(s: &mut String, n: u64)
    ensures
        final(s)@ == old(s)@ + nat_to_decimal(n as nat),
    decreases n,
{
    if n < 10 {
        push_char(s, digit_to_char(n));
        assert(old(s)@.push(digit_char(n as nat)) =~= old(s)@ + seq![digit_char(n as nat)]);
    } else {
        push_u64_decimal(s, n / 10);
        push_char(s, digit_to_char(n % 10));
        assert(old(s)@ + nat_to_decimal((n / 10) as nat) + seq![digit_char((n % 10) as nat)]
            =~= old(s)@ + nat_to_decimal(n as nat));
    }
}

/// Appends the decimal form of `n`, with a `-` when negative, to `s`.
pub fn push_i64_decimal(s: &mut String, n: i64)
    ensures
        final(s)@ == old(s)@ + int_to_decimal(n as int),
{
    if n < 0 {
        push_char(s, '-');
        let m: u64 = if n == i64::MIN {
            0x8000_0000_0000_0000u64
        } else {
            (-n) as u64
        };
        push_u64_decimal(s, m);
        assert(old(s)@.push('-') + nat_to_decimal(m as nat) =~= old(s)@ + (seq!['-']
            + nat_to_decimal(m as nat)));
    } else {
        push_u64_decimal(s, n as u64);
    }
}

/// The string made of `prefix` followed by the decimal form of `n`.
pub fn prefixed_u64(prefix: &str, n: u64) -> (r: String)
    ensures
        r@ == prefix@ + nat_to_decimal(n as nat),
{
    let mut s = String::from_str(prefix);
    push_u64_decimal(&mut s, n);
    s
}

/// The string made of `prefix` followed by the decimal form of `n`.
pub fn prefixed_i64(prefix: &str, n: i64) -> (r: String)
    ensures
        r@ == prefix@ + int_to_decimal(n as int),
{
    let mut s = String::from_str(prefix);
    push_i64_decimal(&mut s, n);
    s
}

/// Whether `s` starts with `prefix`.
pub fn starts_with(s: &str, prefix: &str) -> (r: bool)
    ensures
        r == spec_starts_with(s@, prefix@),
{
    let n = s.unicode_len();
    let m = prefix.unicode_len();
    if m > n {
        return false;
    }
    let mut i: usize = 0;
    while i < m
        invariant
            n == s@.len(),
            m == prefix@.len(),
            m <= n,
            i <= m,
            forall|j: int| 0 <= j < i ==> s@[j] == prefix@[j],
        decreases m - i,
    {
        if s.get_char(i) != prefix.get_char(i) {
            assert(s@.subrange(0, m as int)[i as int] != prefix@[i as int]);
            return false;
        }
        i += 1;
    }
    assert(s@.subrange(0, m as int) =~= prefix@);
    true
}

/// Whether two strings hold the same characters.
pub fn str_eq(a: &str, b: &str) -> (r: bool)
    ensures
        r == (a@ == b@),
{
    let n = a.unicode_len();
    if n != b.unicode_len() {
        return false;
    }
    let r = starts_with(a, b);
    assert(a@.subrange(0, n as int) =~= a@);
    r
}

/// `s` with `prefix` taken off its front, where it starts with it.
pub fn strip_prefix<'a>(s: &'a str, prefix: &str) -> (r: Option<&'a str>)
    ensures
        r matches Some(t) ==> spec_strip_prefix(prefix@, s@) == Some(t@),
        r is None ==> spec_strip_prefix(prefix@, s@) is None,
{
    if starts_with(s, prefix) {
        let n = s.unicode_len();
        let m = prefix.unicode_len();
        let t = s.substring_char(m, n);
        assert(t@ =~= s@.skip(m as int));
        Some(t)
    } else {
        None
    }
}

/// Reads the digits of `s` from index `start` on, as long as their value stays within `limit`.
fn parse_digits(s: &str, start: usize, limit: u64) -> (r: Option<u64>)
    requires
        start <= s@.len(),
        limit >= 9,
    ensures
        r matches Some(v) ==> all_digits(s@.skip(start as int)) && v == digits_value(
            s@.skip(start as int),
        ) && v <= limit,
        r is None ==> !(all_digits(s@.skip(start as int)) && digits_value(s@.skip(start as int))
            <= limit),
{
    let n = s.unicode_len();
    if start >= n {
        return None;
    }
    let ghost t = s@.skip(start as int);
    let mut v: u64 = 0;
    let mut i: usize = start;
    while i < n
        invariant
            n == s@.len(),
            start < n,
            start <= i <= n,
            t == s@.skip(start as int),
            forall|j: int| 0 <= j < i - start ==> is_digit(#[trigger] t[j]),
            v == digits_value(t.subrange(0, i - start)),
            v <= limit,
            limit >= 9,
        decreases n - i,
    {
        let c = s.get_char(i);
        assert(c == t[i - start]);
        if !('0' <= c && c <= '9') {
            return None;
        }
        let d = (c as u32 - '0' as u32) as u64;
        assert(t.subrange(0, i + 1 - start).drop_last() =~= t.subrange(0, i - start));
        assert(digits_value(t.subrange(0, i + 1 - start)) == v * 10 + d);
        if v > (limit - d) / 10 {
            assert(v * 10 + d > limit) by (nonlinear_arith)
                requires
                    v > (limit - d) / 10,
                    d <= 9,
                    limit >= 9,
            ;
            proof {
                lemma_digits_value_prefix_mono(t, (i + 1 - start) as int);
            }
            return None;
        }
        assert(v * 10 + d <= limit) by (nonlinear_arith)
            requires
                v <= (limit - d) / 10,
                d <= 9,
                limit >= 9,
        ;
        v = v * 10 + d;
        i += 1;
    }
    assert(t.subrange(0, n - start) =~= t);
    Some(v)
}

/// A prefix of a run of digits never denotes more than the whole run.
pub proof fn lemma_digits_value_prefix_mono(t: Seq<char>, k: int)
    requires
        0 <= k <= t.len(),
    ensures
        digits_value(t.subrange(0, k)) <= digits_value(t),
    decreases t.len() - k,
{
    if k < t.len() {
        lemma_digits_value_prefix_mono(t, k + 1);
        assert(t.subrange(0, k + 1).drop_last() =~= t.subrange(0, k));
    } else {
        assert(t.subrange(0, k) =~= t);
    }
}

/// `str::parse::<i64>`.
pub fn parse_i64(s: &str) -> (r: Option<i64>)
    ensures
        r == spec_parse_i64(s@),
{
    let n = s.unicode_len();
    if n > 0 && s.get_char(0) == '-' {
        match parse_digits(s, 1, 0x8000_0000_0000_0000u64) {
            Some(v) => {
                if v == 0x8000_0000_0000_0000u64 {
                    Some(i64::MIN)
                } else {
                    Some(-(v as i64))
                }
            },
            None => None,
        }
    } else if n > 0 && s.get_char(0) == '+' {
        match parse_digits(s, 1, i64::MAX as u64) {
            Some(v) => Some(v as i64),
            None => None,
        }
    } else {
        assert(s@.skip(0) =~= s@);
        match parse_digits(s, 0, i64::MAX as u64) {
            Some(v) => Some(v as i64),
            None => None,
        }
    }
}

/// `str::parse::<usize>`.
pub fn parse_usize(s: &str) -> (r: Option<usize>)
    ensures
        r == spec_parse_usize(s@),
{
    let n = s.unicode_len();
    if n > 0 && s.get_char(0) == '+' {
        match parse_digits(s, 1, usize::MAX as u64) {
            Some(v) => Some(v as usize),
            None => None,
        }
    } else {
        assert(s@.skip(0) =~= s@);
        match parse_digits(s, 0, usize::MAX as u64) {
            Some(v) => Some(v as usize),
            None => None,
        }
    }
}

} // verus!
