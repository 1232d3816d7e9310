//! Whole numbers in decimal notation.
//!
//! The accepted notation is that of Rust's integer parsing: an optional sign
//! (`+`, and `-` for signed numbers) followed by one or more ASCII digits,
//! with nothing before or after. The written notation has no `+` and no
//! leading zeros.

use vstd::prelude::*;

verus! {

/// Whether `c` is one of `0` .. `9`.
pub open spec fn is_digit(c: char) -> bool {
    0x30 <= c as u32 <= 0x39
}

/// The number that the digit `c` stands for.
pub open spec fn digit_of(c: char) -> int {
    c as u32 - 0x30
}

/// The digit that stands for `d`, for `d` in `0..=9`.
pub open spec fn digit_char(d: int) -> char {
    if d == 0 {
        '0'
    } else if d == 1 {
        '1'
    } else if d == 2 {
        '2'
    } else if d == 3 {
        '3'
    } else if d == 4 {
        '4'
    } else if d == 5 {
        '5'
    } else if d == 6 {
        '6'
    } else if d == 7 {
        '7'
    } else if d == 8 {
        '8'
    } else {
        '9'
    }
}

/// Every character of `s` is a digit.
pub open spec fn all_digits(s: Seq<char>) -> bool {
    forall|i: int| 0 <= i < s.len() ==> is_digit(#[trigger] s[i])
}

/// The number that a run of digits denotes, most significant digit first.
pub open spec fn digits_value(s: Seq<char>) -> int
    decreases s.len(),
{
    if s.len() == 0 {
        0
    } else {
        10 * digits_value(s.drop_last()) + digit_of(s.last())
    }
}

/// The number that `s` denotes if `s` is a non-empty run of digits whose
/// value is at most `max`.
pub open spec fn parse_digits(s: Seq<char>, max: int) -> Option<int> {
    if s.len() > 0 && all_digits(s) && digits_value(s) <= max {
        Some(digits_value(s))
    } else {
        None
    }
}

/// The number that `s` denotes as an unsigned number of at most `max`.
pub open spec fn parse_unsigned(s: Seq<char>, max: int) -> Option<int> {
    if s.len() > 0 && s[0] == '+' {
        parse_digits(s.skip(1), max)
    } else {
        parse_digits(s, max)
    }
}

/// The number that `s` denotes as a signed number in `min..=max`, where
/// `min <= 0 <= max`.
pub open spec fn parse_signed(s: Seq<char>, min: int, max: int) -> Option<int> {
    if s.len() > 0 && s[0] == '-' {
        match parse_digits(s.skip(1), -min) {
            Some(magnitude) => Some(-magnitude),
            None => None,
        }
    } else {
        parse_unsigned(s, max)
    }
}

/// The digits of `n`, without leading zeros.
pub open spec fn decimal(n: nat) -> Seq<char>
    decreases n,
{
    if n < 10 {
        seq![digit_char(n as int)]
    } else {
        decimal(n / 10).push(digit_char((n % 10) as int))
    }
}

/// The digits of `n`, after a `-` where `n` is negative.
pub open spec fn signed_decimal(n: int) -> Seq<char> {
    if n < 0 {
        seq!['-'] + decimal((-n) as nat)
    } else {
        decimal(n as nat)
    }
}

/// A run of digits denotes at least what any of its prefixes denotes.
pub proof fn lemma_digits_value_grows(s: Seq<char>, k: int)
    requires
        all_digits(s),
        0 <= k <= s.len(),
    ensures
        0 <= digits_value(s.take(k)) <= digits_value(s),
    decreases s.len() - k,
{
    if k == s.len() {
        assert(s.take(k) == s);
        lemma_digits_value_nonnegative(s);
    } else {
        lemma_digits_value_grows(s, k + 1);
        assert(s.take(k + 1).drop_last() == s.take(k));
        assert(is_digit(s[k]));
        lemma_digits_value_nonnegative(s.take(k));
    }
}

/// A run of digits denotes a natural number.
pub proof fn lemma_digits_value_nonnegative(s: Seq<char>)
    requires
        all_digits(s),
    ensures
        0 <= digits_value(s),
    decreases s.len(),
{
    if s.len() > 0 {
        lemma_digits_value_nonnegative(s.drop_last());
        assert(is_digit(s.last()));
    }
}

/// `digit_char` and `digit_of` undo each other.
pub proof fn lemma_digit_char(d: int)
    requires
        0 <= d <= 9,
    ensures
        is_digit(digit_char(d)),
        digit_of(digit_char(d)) == d,
{
}

/// The written digits of `n` are digits only, and denote `n`.
pub proof fn lemma_decimal_denotes(n: nat)
    ensures
        decimal(n).len() > 0,
        all_digits(decimal(n)),
        digits_value(decimal(n)) == n,
    decreases n,
{
    lemma_digit_char((n % 10) as int);
    if n < 10 {
        assert(decimal(n).drop_last().len() == 0);
        assert(digits_value(decimal(n).drop_last()) == 0);
    } else {
        lemma_decimal_denotes(n / 10);
        assert(decimal(n).drop_last() == decimal(n / 10));
    }
}

/// Reading what was written gives the number back.
pub proof fn lemma_parse_unsigned_decimal(n: nat, max: int)
    requires
        n <= max,
    ensures
        parse_unsigned(decimal(n), max) == Some(n as int),
{
    lemma_decimal_denotes(n);
    assert(is_digit(decimal(n)[0]));
}

/// Reading what was written gives the signed number back.
pub proof fn lemma_parse_signed_decimal(n: int, min: int, max: int)
    requires
        min <= n <= max,
        min <= 0 <= max,
    ensures
        parse_signed(signed_decimal(n), min, max) == Some(n),
{
    if n < 0 {
        lemma_decimal_denotes((-n) as nat);
        assert(signed_decimal(n).skip(1) == decimal((-n) as nat));
    } else {
        lemma_parse_unsigned_decimal(n as nat, max);
        lemma_decimal_denotes(n as nat);
        assert(is_digit(decimal(n as nat)[0]));
    }
}

/// Reads a run of digits of value at most `max` from `start..end`.
pub fn parse_digits_span(chars: &Vec<char>, start: usize, end: usize, max: u64) -> (r: Option<u64>)
    requires
        start <= end <= chars.len(),
    ensures
        match r {
            Some(v) => parse_digits(chars@.subrange(start as int, end as int), max as int) == Some(
                v as int,
            ),
            None => parse_digits(chars@.subrange(start as int, end as int), max as int) is None,
        },
{
    if start == end {
        return None;
    }
    let ghost s = chars@.subrange(start as int, end as int);
    let mut acc: u64 = 0;
    let mut i: usize = start;
    while i < end
        invariant
            start <= i <= end <= chars.len(),
            s == chars@.subrange(start as int, end as int),
            all_digits(s.take(i - start)),
            acc == digits_value(s.take(i - start)),
            acc <= max,
        decreases end - i,
    {
        let c: u32 = chars[i] as u32;
        proof {
            assert(s.take(i - start + 1).drop_last() == s.take(i - start));
            assert(s[i - start] == chars@[i as int]);
        }
        if c < 0x30 || c > 0x39 {
            assert(!is_digit(s[i - start]));
            return None;
        }
        let d: u64 = (c - 0x30) as u64;
        if d > max || acc > (max - d) / 10 {
            proof {
                if all_digits(s) {
                    lemma_digits_value_grows(s, i - start + 1);
                }
            }
            return None;
        }
        acc = acc * 10 + d;
        i = i + 1;
    }
    assert(s.take(end - start) == s);
    Some(acc)
}

/// Reads an unsigned number of at most `max` from `start..end`.
pub fn parse_unsigned_span(chars: &Vec<char>, start: usize, end: usize, max: u64) -> (r: Option<
    u64,
>)
    requires
        start <= end <= chars.len(),
    ensures
        match r {
            Some(v) => parse_unsigned(chars@.subrange(start as int, end as int), max as int)
                == Some(v as int),
            None => parse_unsigned(chars@.subrange(start as int, end as int), max as int) is None,
        },
{
    if start < end && chars[start] == '+' {
        assert(chars@.subrange(start as int, end as int).skip(1) == chars@.subrange(
            start + 1,
            end as int,
        ));
        parse_digits_span(chars, start + 1, end, max)
    } else {
        parse_digits_span(chars, start, end, max)
    }
}

/// Reads a signed 64-bit number from `start..end`.
pub fn parse_i64_span(chars: &Vec<char>, start: usize, end: usize) -> (r: Option<i64>)
    requires
        start <= end <= chars.len(),
    ensures
        match r {
            Some(v) => parse_signed(
                chars@.subrange(start as int, end as int),
                i64::MIN as int,
                i64::MAX as int,
            ) == Some(v as int),
            None => parse_signed(
                chars@.subrange(start as int, end as int),
                i64::MIN as int,
                i64::MAX as int,
            ) is None,
        },
{
    if start < end && chars[start] == '-' {
        assert(chars@.subrange(start as int, end as int).skip(1) == chars@.subrange(
            start + 1,
            end as int,
        ));
        match parse_digits_span(chars, start + 1, end, 0x8000_0000_0000_0000) {
            Some(magnitude) => {
                if magnitude == 0x8000_0000_0000_0000 {
                    Some(i64::MIN)
                } else {
                    Some(-(magnitude as i64))
                }
            },
            None => None,
        }
    } else {
        match parse_unsigned_span(chars, start, end, 0x7fff_ffff_ffff_ffff) {
            Some(v) => Some(v as i64),
            None => None,
        }
    }
}

/// The text of a single digit.
pub fn digit_text(d: u64) -> (r: &'static str)
    requires
        d < 10,
    ensures
        r@ == seq![digit_char(d as int)],
{
    proof {
        reveal_strlit("0");
        reveal_strlit("1");
        reveal_strlit("2");
        reveal_strlit("3");
        reveal_strlit("4");
        reveal_strlit("5");
        reveal_strlit("6");
        reveal_strlit("7");
        reveal_strlit("8");
        reveal_strlit("9");
    }
    let r = if d == 0 {
        "0"
    } else if d == 1 {
        "1"
    } else if d == 2 {
        "2"
    } else if d == 3 {
        "3"
    } else if d == 4 {
        "4"
    } else if d == 5 {
        "5"
    } else if d == 6 {
        "6"
    } else if d == 7 {
        "7"
    } else if d == 8 {
        "8"
    } else {
        "9"
    };
    assert(r@ =~= seq![digit_char(d as int)]);
    r
}

/// Appends the digits of `n` to `out`.
pub fn append_decimal(out: &mut String, n: u64)
    ensures
        final(out)@ == old(out)@ + decimal(n as nat),
    decreases n,
{
    if n >= 10 {
        append_decimal(out, n / 10);
    }
    out.append(digit_text(n % 10));
    assert(out@ =~= old(out)@ + decimal(n as nat));
}

/// Appends `n` to `out`, with a `-` in front where it is negative.
pub fn append_signed_decimal(out: &mut String, n: i64)
    ensures
        final(out)@ == old(out)@ + signed_decimal(n as int),
{
    if n < 0 {
        proof {
            reveal_strlit("-");
        }
        out.append("-");
        let magnitude: u64 = (-(n + 1)) as u64 + 1;
        append_decimal(out, magnitude);
        assert(out@ =~= old(out)@ + signed_decimal(n as int));
    } else {
        append_decimal(out, n as u64);
    }
}

} // verus!
