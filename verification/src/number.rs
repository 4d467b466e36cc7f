//! Whole numbers written in decimal: what a text denotes, and the functions
//! that read it into a machine integer or find that it denotes none.

use crate::text::chars_of;
use vstd::prelude::*;

verus! {

/// `c` is one of `0` to `9`.
pub open spec fn is_digit(c: char) -> bool {
    '0' <= c && c <= '9'
}

/// What a digit counts for; zero for any other character.
pub open spec fn digit_value(c: char) -> nat {
    if is_digit(c) {
        (c as int - '0' as int) as nat
    } else {
        0
    }
}

/// Every character of `s` is a digit.
pub open spec fn all_digits(s: Seq<char>) -> bool {
    forall|i: int| 0 <= i < s.len() ==> is_digit(#[trigger] s[i])
}

/// The number that a run of digits denotes in base ten, the leftmost digit
/// weighing most. Leading zeros change nothing; the empty run denotes zero.
pub open spec fn decimal_value(s: Seq<char>) -> nat
    decreases s.len(),
{
    if s.len() == 0 {
        0
    } else {
        10 * decimal_value(s.drop_last()) + digit_value(s.last())
    }
}

/// What `s` denotes as a number without a minus sign: one digit or more, with
/// one `+` allowed in front. Anything else denotes nothing.
pub open spec fn unsigned_decimal(s: Seq<char>) -> Option<nat> {
    let digits = if s.len() > 0 && s[0] == '+' {
        s.skip(1)
    } else {
        s
    };
    if digits.len() > 0 && all_digits(digits) {
        Some(decimal_value(digits))
    } else {
        None
    }
}

/// What `s` denotes as a number with an optional sign: one digit or more, with
/// one `+` or `-` allowed in front. Anything else denotes nothing.
pub open spec fn signed_decimal(s: Seq<char>) -> Option<int> {
    if s.len() > 0 && s[0] == '-' {
        let digits = s.skip(1);
        if digits.len() > 0 && all_digits(digits) {
            Some(-(decimal_value(digits) as int))
        } else {
            None
        }
    } else {
        match unsigned_decimal(s) {
            Some(v) => Some(v as int),
            None => None,
        }
    }
}

/// The `u8` that `s` denotes, if it denotes a number that fits one.
pub open spec fn text_as_u8(s: Seq<char>) -> Option<u8> {
    match unsigned_decimal(s) {
        Some(v) => if v <= u8::MAX {
            Some(v as u8)
        } else {
            None
        },
        None => None,
    }
}

/// The `u32` that `s` denotes, if it denotes a number that fits one.
pub open spec fn text_as_u32(s: Seq<char>) -> Option<u32> {
    match unsigned_decimal(s) {
        Some(v) => if v <= u32::MAX {
            Some(v as u32)
        } else {
            None
        },
        None => None,
    }
}

/// The `u64` that `s` denotes, if it denotes a number that fits one.
pub open spec fn text_as_u64(s: Seq<char>) -> Option<u64> {
    match unsigned_decimal(s) {
        Some(v) => if v <= u64::MAX {
            Some(v as u64)
        } else {
            None
        },
        None => None,
    }
}

/// The `i32` that `s` denotes, if it denotes a number that fits one.
pub open spec fn text_as_i32(s: Seq<char>) -> Option<i32> {
    match signed_decimal(s) {
        Some(v) => if i32::MIN <= v <= i32::MAX {
            Some(v as i32)
        } else {
            None
        },
        None => None,
    }
}

/// The digits of `s`, read as a number, where `s` is a non-empty run of
/// digits whose value does not exceed `limit`.
pub open spec fn digits_within(s: Seq<char>, limit: nat) -> Option<nat> {
    if s.len() > 0 && all_digits(s) && decimal_value(s) <= limit {
        Some(decimal_value(s))
    } else {
        None
    }
}

/// A run of digits denotes at least what any of its beginnings denotes.
pub proof fn lemma_decimal_value_grows(s: Seq<char>, k: int)
    requires
        0 <= k <= s.len(),
    ensures
        decimal_value(s.take(k)) <= decimal_value(s),
    decreases s.len() - k,
{
    if k == s.len() {
        assert(s.take(k) =~= s);
    } else {
        lemma_decimal_value_grows(s.drop_last(), k);
        assert(s.drop_last().take(k) =~= s.take(k));
    }
}

/// The digit that counts for `d`, for `d` below ten.
pub open spec fn digit_char(d: nat) -> char {
    ('0' as nat + d) as char
}

/// A number written in decimal, without sign and without leading zeros.
pub open spec fn decimal_text(n: nat) -> Seq<char>
    decreases n,
{
    if n < 10 {
        seq![digit_char(n)]
    } else {
        decimal_text(n / 10).push(digit_char(n % 10))
    }
}

/// A whole number written in decimal, with a minus sign where it is
/// negative.
pub open spec fn signed_text(v: int) -> Seq<char> {
    if v < 0 {
        seq!['-'] + decimal_text((-v) as nat)
    } else {
        decimal_text(v as nat)
    }
}

/// A number that is written in decimal and read again is the same number.
pub proof fn lemma_decimal_text_reads_back(n: nat)
    ensures
        decimal_text(n).len() > 0,
        all_digits(decimal_text(n)),
        decimal_value(decimal_text(n)) == n,
        unsigned_decimal(decimal_text(n)) == Some(n),
        signed_decimal(decimal_text(n)) == Some(n as int),
    decreases n,
{
    let text = decimal_text(n);
    if n < 10 {
        assert(is_digit(text[0]));
        assert(text.drop_last().len() == 0);
        assert(decimal_value(text.drop_last()) == 0);
        assert(digit_value(text.last()) == n);
    } else {
        let front = decimal_text(n / 10);
        lemma_decimal_text_reads_back(n / 10);
        assert(text.drop_last() =~= front);
        assert(text.last() == digit_char(n % 10));
        assert(digit_value(text.last()) == n % 10);
        assert forall|i: int| 0 <= i < text.len() implies is_digit(#[trigger] text[i]) by {
            if i < front.len() {
                assert(text[i] == front[i]);
            }
        }
    }
    assert(is_digit(text[0]));
}

/// A whole number that is written with its sign and read again is the same
/// number.
pub proof fn lemma_signed_text_reads_back(v: int)
    ensures
        signed_decimal(signed_text(v)) == Some(v),
{
    if v < 0 {
        let digits = decimal_text((-v) as nat);
        lemma_decimal_text_reads_back((-v) as nat);
        assert(signed_text(v).skip(1) =~= digits);
    } else {
        lemma_decimal_text_reads_back(v as nat);
    }
}

/// What fits its type reads back as itself: a `u8`, a `u32`, a `u64` and an
/// `i32`, written in decimal, denote the value that was written.
pub proof fn lemma_machine_numbers_read_back(small: u8, wide: u32, long: u64, signed: i32)
    ensures
        text_as_u8(decimal_text(small as nat)) == Some(small),
        text_as_u32(decimal_text(wide as nat)) == Some(wide),
        text_as_u64(decimal_text(long as nat)) == Some(long),
        text_as_i32(signed_text(signed as int)) == Some(signed),
{
    lemma_decimal_text_reads_back(small as nat);
    lemma_decimal_text_reads_back(wide as nat);
    lemma_decimal_text_reads_back(long as nat);
    lemma_signed_text_reads_back(signed as int);
}

/// Reads the digits of `chars` from index `from` to the end.
fn read_digits(chars: &Vec<char>, from: usize, limit: u64) -> (out: Option<u64>)
    requires
        from <= chars.len(),
        limit >= 9,
    ensures
        match out {
            Some(v) => digits_within(chars@.skip(from as int), limit as nat) == Some(v as nat),
            None => digits_within(chars@.skip(from as int), limit as nat) is None,
        },
{
    let n = chars.len();
    let ghost s = chars@.skip(from as int);
    if from == n {
        return None;
    }
    let mut acc: u64 = 0;
    let mut i: usize = from;
    while i < n
        invariant
            from <= i <= n,
            n == chars.len(),
            s == chars@.skip(from as int),
            limit >= 9,
            all_digits(s.take(i - from)),
            acc == decimal_value(s.take(i - from)),
            acc <= limit,
        decreases n - i,
    {
        let c = chars[i];
        let ghost next = s.take(i - from + 1);
        proof {
            assert(next.drop_last() =~= s.take(i - from));
            assert(next.last() == c);
        }
        if c < '0' || c > '9' {
            assert(!is_digit(s[i - from]));
            return None;
        }
        let d: u64 = (c as u64) - ('0' as u64);
        if acc > (limit - d) / 10 {
            proof {
                assert(decimal_value(next) > limit);
                lemma_decimal_value_grows(s, i - from + 1);
            }
            return None;
        }
        acc = acc * 10 + d;
        i += 1;
    }
    assert(s.take(n - from) =~= s);
    Some(acc)
}

/// Reads `text` as a `u8` written in decimal.
pub fn parse_u8(text: &str) -> (out: Option<u8>)
    ensures
        out == text_as_u8(text@),
{
    let chars = chars_of(text);
    let from: usize = if chars.len() > 0 && chars[0] == '+' {
        1
    } else {
        0
    };
    assert(chars@.skip(0) =~= chars@);
    match read_digits(&chars, from, 255) {
        Some(v) => Some(v as u8),
        None => None,
    }
}

/// Reads `text` as a `u32` written in decimal.
pub fn parse_u32(text: &str) -> (out: Option<u32>)
    ensures
        out == text_as_u32(text@),
{
    let chars = chars_of(text);
    let from: usize = if chars.len() > 0 && chars[0] == '+' {
        1
    } else {
        0
    };
    assert(chars@.skip(0) =~= chars@);
    match read_digits(&chars, from, 0xFFFF_FFFF) {
        Some(v) => Some(v as u32),
        None => None,
    }
}

/// Reads `text` as a `u64` written in decimal.
pub fn parse_u64(text: &str) -> (out: Option<u64>)
    ensures
        out == text_as_u64(text@),
{
    let chars = chars_of(text);
    let from: usize = if chars.len() > 0 && chars[0] == '+' {
        1
    } else {
        0
    };
    assert(chars@.skip(0) =~= chars@);
    read_digits(&chars, from, 0xFFFF_FFFF_FFFF_FFFF)
}

/// Reads `text` as an `i32` written in decimal.
pub fn parse_i32(text: &str) -> (out: Option<i32>)
    ensures
        out == text_as_i32(text@),
{
    let chars = chars_of(text);
    assert(chars@.skip(0) =~= chars@);
    if chars.len() > 0 && chars[0] == '-' {
        match read_digits(&chars, 1, 0x8000_0000) {
            Some(v) => {
                let wide: i64 = 0 - (v as i64);
                Some(wide as i32)
            },
            None => None,
        }
    } else {
        let from: usize = if chars.len() > 0 && chars[0] == '+' {
            1
        } else {
            0
        };
        match read_digits(&chars, from, 0x7FFF_FFFF) {
            Some(v) => Some(v as i32),
            None => None,
        }
    }
}

} // verus!
