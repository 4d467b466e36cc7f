//! Real numbers written in decimal, kept as the text that denotes them.
//!
//! A field such as a latitude is carried as its text once the text is known
//! to follow the grammar of a decimal real; the text is turned into a machine
//! number only where one is needed.

use crate::number::{all_digits, is_digit};
use crate::text::{chars_of, first_index_of, lemma_first_index_of, lemma_first_index_of_is};
use vstd::prelude::*;

verus! {

/// `c` is `+` or `-`.
pub open spec fn is_sign(c: char) -> bool {
    c == '+' || c == '-'
}

/// `c` is `e` or `E`, the mark that opens an exponent.
pub open spec fn is_exponent_mark(c: char) -> bool {
    c == 'e' || c == 'E'
}

/// Digits with at most one point among them and at least one digit in all:
/// `12`, `12.`, `.5` and `1.5`, but neither `.` nor the empty text.
pub open spec fn is_mantissa(s: Seq<char>) -> bool {
    let point = first_index_of(s, '.');
    if 0 <= point < s.len() {
        all_digits(s.take(point)) && all_digits(s.skip(point + 1)) && s.len() > 1
    } else {
        s.len() > 0 && all_digits(s)
    }
}

/// What may follow an exponent mark: one digit or more, with one sign
/// allowed in front.
pub open spec fn is_exponent(s: Seq<char>) -> bool {
    let digits = if s.len() > 0 && is_sign(s[0]) {
        s.skip(1)
    } else {
        s
    };
    digits.len() > 0 && all_digits(digits)
}

/// A mantissa, alone or followed by an exponent mark and an exponent.
pub open spec fn is_number(s: Seq<char>) -> bool {
    is_mantissa(s) || exists|k: int|
        0 <= k < s.len() && is_exponent_mark(#[trigger] s[k]) && is_mantissa(s.take(k))
            && is_exponent(s.skip(k + 1))
}

/// The code of `c`, with a capital Latin letter counted as its small one.
pub open spec fn folded(c: char) -> int {
    if 'A' <= c && c <= 'Z' {
        c as int + 32
    } else {
        c as int
    }
}

/// `s` spells `word`, capitals and small letters taken as the same.
pub open spec fn spells(s: Seq<char>, word: Seq<char>) -> bool {
    s.len() == word.len() && forall|i: int| 0 <= i < s.len() ==> folded(#[trigger] s[i]) == folded(word[i])
}

/// One of the three words that name a value which is no finite number.
pub open spec fn is_special(s: Seq<char>) -> bool {
    spells(s, "inf"@) || spells(s, "infinity"@) || spells(s, "nan"@)
}

/// `s` is the text of a decimal real: an optional sign, then either a number
/// or one of the special words.
pub open spec fn is_real_text(s: Seq<char>) -> bool {
    let body = if s.len() > 0 && is_sign(s[0]) {
        s.skip(1)
    } else {
        s
    };
    is_special(body) || is_number(body)
}

/// A mantissa holds nothing but digits and points.
pub proof fn lemma_mantissa_chars(s: Seq<char>)
    requires
        is_mantissa(s),
    ensures
        forall|i: int| 0 <= i < s.len() ==> is_digit(#[trigger] s[i]) || s[i] == '.',
{
    lemma_first_index_of(s, '.');
    let point = first_index_of(s, '.');
    assert forall|i: int| 0 <= i < s.len() implies is_digit(#[trigger] s[i]) || s[i] == '.' by {
        if 0 <= point < s.len() {
            if i < point {
                assert(s.take(point)[i] == s[i]);
            } else if i > point {
                assert(s.skip(point + 1)[i - point - 1] == s[i]);
            }
        }
    }
}

/// Whether `chars[from..to]` is a run of digits, the empty run included.
fn digits_only(chars: &Vec<char>, from: usize, to: usize) -> (ok: bool)
    requires
        from <= to <= chars.len(),
    ensures
        ok == all_digits(chars@.subrange(from as int, to as int)),
{
    let ghost s = chars@.subrange(from as int, to as int);
    let mut i: usize = from;
    while i < to
        invariant
            from <= i <= to <= chars.len(),
            s == chars@.subrange(from as int, to as int),
            forall|j: int| 0 <= j < i - from ==> is_digit(#[trigger] s[j]),
        decreases to - i,
    {
        let c = chars[i];
        if c < '0' || c > '9' {
            assert(!is_digit(s[i - from]));
            return false;
        }
        i += 1;
    }
    true
}

/// Whether `chars[from..to]` is a mantissa.
fn mantissa_at(chars: &Vec<char>, from: usize, to: usize) -> (ok: bool)
    requires
        from <= to <= chars.len(),
    ensures
        ok == is_mantissa(chars@.subrange(from as int, to as int)),
{
    let ghost s = chars@.subrange(from as int, to as int);
    let mut point: usize = from;
    while point < to && chars[point] != '.'
        invariant
            from <= point <= to <= chars.len(),
            s == chars@.subrange(from as int, to as int),
            forall|j: int| 0 <= j < point - from ==> s[j] != '.',
        decreases to - point,
    {
        point += 1;
    }
    proof {
        lemma_first_index_of_is(s, '.', point - from);
    }
    if point < to {
        let before = digits_only(chars, from, point);
        let after = digits_only(chars, point + 1, to);
        proof {
            assert(s.take(point - from) =~= chars@.subrange(from as int, point as int));
            assert(s.skip(point - from + 1) =~= chars@.subrange(point + 1, to as int));
        }
        before && after && to - from > 1
    } else {
        to > from && digits_only(chars, from, to)
    }
}

/// Whether `chars[from..to]` is an exponent.
fn exponent_at(chars: &Vec<char>, from: usize, to: usize) -> (ok: bool)
    requires
        from <= to <= chars.len(),
    ensures
        ok == is_exponent(chars@.subrange(from as int, to as int)),
{
    let ghost s = chars@.subrange(from as int, to as int);
    let start: usize = if from < to && (chars[from] == '+' || chars[from] == '-') {
        from + 1
    } else {
        from
    };
    proof {
        assert(s.skip(start - from) =~= chars@.subrange(start as int, to as int));
        assert(s.skip(0) =~= s);
    }
    start < to && digits_only(chars, start, to)
}

/// Whether `chars[from..to]` is a number.
fn number_at(chars: &Vec<char>, from: usize, to: usize) -> (ok: bool)
    requires
        from <= to <= chars.len(),
    ensures
        ok == is_number(chars@.subrange(from as int, to as int)),
{
    let ghost s = chars@.subrange(from as int, to as int);
    let mut mark: usize = from;
    while mark < to && chars[mark] != 'e' && chars[mark] != 'E'
        invariant
            from <= mark <= to <= chars.len(),
            s == chars@.subrange(from as int, to as int),
            forall|j: int| 0 <= j < mark - from ==> !is_exponent_mark(#[trigger] s[j]),
        decreases to - mark,
    {
        mark += 1;
    }
    if mark < to {
        let ok = mantissa_at(chars, from, mark) && exponent_at(chars, mark + 1, to);
        proof {
            let m = mark - from;
            assert(s.take(m) =~= chars@.subrange(from as int, mark as int));
            assert(s.skip(m + 1) =~= chars@.subrange(mark + 1, to as int));
            assert(is_exponent_mark(s[m]));
            if is_mantissa(s) {
                lemma_mantissa_chars(s);
                assert(is_digit(s[m]) || s[m] == '.');
            }
            assert forall|k: int|
                0 <= k < s.len() && is_exponent_mark(#[trigger] s[k]) && is_mantissa(s.take(k))
                    && is_exponent(s.skip(k + 1)) implies k == m by {
                if k > m {
                    lemma_mantissa_chars(s.take(k));
                    assert(s.take(k)[m] == s[m]);
                }
            }
        }
        ok
    } else {
        mantissa_at(chars, from, to)
    }
}

/// Whether `chars[from..to]` spells `word`.
fn spells_at(chars: &Vec<char>, from: usize, to: usize, word: &str) -> (ok: bool)
    requires
        from <= to <= chars.len(),
    ensures
        ok == spells(chars@.subrange(from as int, to as int), word@),
{
    let ghost s = chars@.subrange(from as int, to as int);
    let letters = chars_of(word);
    if letters.len() != to - from {
        return false;
    }
    let mut i: usize = 0;
    while i < letters.len()
        invariant
            from <= to <= chars.len(),
            letters.len() == to - from,
            letters@ == word@,
            s == chars@.subrange(from as int, to as int),
            forall|j: int| 0 <= j < i ==> folded(#[trigger] s[j]) == folded(word@[j]),
            i <= letters.len(),
        decreases letters.len() - i,
    {
        if fold(chars[from + i]) != fold(letters[i]) {
            assert(folded(s[i as int]) != folded(word@[i as int]));
            return false;
        }
        i += 1;
    }
    true
}

/// The code of `c`, with a capital Latin letter counted as its small one.
fn fold(c: char) -> (code: u32)
    ensures
        code == folded(c),
{
    if 'A' <= c && c <= 'Z' {
        c as u32 + 32
    } else {
        c as u32
    }
}

/// Whether `text` is the text of a decimal real.
pub fn is_real(text: &str) -> (ok: bool)
    ensures
        ok == is_real_text(text@),
{
    let chars = chars_of(text);
    let n = chars.len();
    let from: usize = if n > 0 && (chars[0] == '+' || chars[0] == '-') {
        1
    } else {
        0
    };
    proof {
        assert(chars@.skip(from as int) =~= chars@.subrange(from as int, n as int));
        assert(chars@.skip(0) =~= chars@);
    }
    spells_at(&chars, from, n, "inf") || spells_at(&chars, from, n, "infinity") || spells_at(
        &chars,
        from,
        n,
        "nan",
    ) || number_at(&chars, from, n)
}

/// A real number as its decimal text.
#[derive(Debug, PartialEq, Eq)]
pub struct Decimal {
    text: String,
}

impl View for Decimal {
    type V = Seq<char>;

    closed spec fn view(&self) -> Seq<char> {
        self.text@
    }
}

impl Clone for Decimal {
    fn clone(&self) -> (out: Self)
        ensures
            out@ == self@,
    {
        proof {
            use_type_invariant(self);
        }
        Decimal { text: self.text.clone() }
    }
}

impl Decimal {
    #[verifier::type_invariant]
    spec fn well_formed(self) -> bool {
        is_real_text(self.text@)
    }

    /// Takes `text` as a decimal real if it is the text of one.
    pub fn parse(text: &str) -> (out: Option<Decimal>)
        ensures
            out is Some == is_real_text(text@),
            out is Some ==> out->0@ == text@,
    {
        if is_real(text) {
            Some(Decimal { text: text.to_owned() })
        } else {
            None
        }
    }

    /// The number zero, written `0`.
    pub fn zero() -> (out: Decimal)
        ensures
            out@ == "0"@,
    {
        proof {
            reveal_strlit("0");
            let s = "0"@;
            assert(first_index_of(s, '.') == 1) by {
                lemma_first_index_of_is(s, '.', 1);
            }
            assert(is_mantissa(s));
        }
        Decimal { text: "0".to_owned() }
    }

    /// The text of the number.
    pub fn as_str(&self) -> (out: &str)
        ensures
            out@ == self@,
            is_real_text(out@),
    {
        proof {
            use_type_invariant(self);
        }
        self.text.as_str()
    }
}

} // verus!
