//! What the capture source makes of a line it has read from the receiver:
//! the line without the white space around it, or nothing where nothing but
//! white space was read.

use crate::text::chars_of;
use vstd::prelude::*;

verus! {

/// `c` is white space: a character with the Unicode property `White_Space`.
/// Tab, line feed and carriage return are among them.
pub open spec fn is_white_space(c: char) -> bool {
    let code = c as int;
    ||| 0x09 <= code <= 0x0D
    ||| code == 0x20
    ||| code == 0x85
    ||| code == 0xA0
    ||| code == 0x1680
    ||| 0x2000 <= code <= 0x200A
    ||| code == 0x2028
    ||| code == 0x2029
    ||| code == 0x202F
    ||| code == 0x205F
    ||| code == 0x3000
}

/// The index of the first character of `s` that is no white space, or
/// `s.len()` where all are.
pub open spec fn first_visible(s: Seq<char>) -> int
    decreases s.len(),
{
    if s.len() == 0 || !is_white_space(s[0]) {
        0
    } else {
        1 + first_visible(s.drop_first())
    }
}

/// The index after the last character of `s` that is no white space, or
/// zero where all are.
pub open spec fn after_last_visible(s: Seq<char>) -> int
    decreases s.len(),
{
    if s.len() == 0 {
        0
    } else if !is_white_space(s.last()) {
        s.len() as int
    } else {
        after_last_visible(s.drop_last())
    }
}

/// `s` without the white space at its beginning and at its end: from its
/// first visible character to its last, or the empty text where it has none.
pub open spec fn trimmed(s: Seq<char>) -> Seq<char> {
    let from = first_visible(s);
    let to = after_last_visible(s);
    if from < to {
        s.subrange(from, to)
    } else {
        Seq::empty()
    }
}

/// What is made of a line that was read: its trimmed text, or nothing where
/// that is empty.
pub open spec fn captured(buffer: Seq<char>) -> Option<Seq<char>> {
    if trimmed(buffer).len() == 0 {
        None
    } else {
        Some(trimmed(buffer))
    }
}

/// An index with only white space before it, which holds a visible
/// character or is the length, is `first_visible`.
pub proof fn lemma_first_visible_is(s: Seq<char>, k: int)
    requires
        0 <= k <= s.len(),
        forall|i: int| 0 <= i < k ==> is_white_space(#[trigger] s[i]),
        k < s.len() ==> !is_white_space(s[k]),
    ensures
        first_visible(s) == k,
    decreases s.len(),
{
    if k > 0 {
        let rest = s.drop_first();
        assert(is_white_space(s[0]));
        assert forall|i: int| 0 <= i < k - 1 implies is_white_space(#[trigger] rest[i]) by {
            assert(rest[i] == s[i + 1]);
        }
        lemma_first_visible_is(rest, k - 1);
    }
}

/// An index with only white space from it on, which follows a visible
/// character or is zero, is `after_last_visible`.
pub proof fn lemma_after_last_visible_is(s: Seq<char>, k: int)
    requires
        0 <= k <= s.len(),
        forall|i: int| k <= i < s.len() ==> is_white_space(#[trigger] s[i]),
        k > 0 ==> !is_white_space(s[k - 1]),
    ensures
        after_last_visible(s) == k,
    decreases s.len(),
{
    if k < s.len() {
        let front = s.drop_last();
        assert(is_white_space(s[s.len() - 1]));
        assert forall|i: int| k <= i < front.len() implies is_white_space(#[trigger] front[i]) by {
            assert(front[i] == s[i]);
        }
        lemma_after_last_visible_is(front, k);
    }
}

/// Only white space stands before `first_visible`, and where it is an index
/// of the text it holds a visible character.
pub proof fn lemma_first_visible(s: Seq<char>)
    ensures
        0 <= first_visible(s) <= s.len(),
        forall|i: int| 0 <= i < first_visible(s) ==> is_white_space(#[trigger] s[i]),
        first_visible(s) < s.len() ==> !is_white_space(s[first_visible(s)]),
    decreases s.len(),
{
    if s.len() > 0 && is_white_space(s[0]) {
        let rest = s.drop_first();
        lemma_first_visible(rest);
        assert forall|i: int| 0 <= i < first_visible(s) implies is_white_space(
            #[trigger] s[i],
        ) by {
            if i > 0 {
                assert(rest[i - 1] == s[i]);
            }
        }
        if first_visible(rest) < rest.len() {
            assert(rest[first_visible(rest)] == s[first_visible(s)]);
        }
    }
}

/// Only white space stands from `after_last_visible` on, and where it is
/// not zero a visible character stands just before it.
pub proof fn lemma_after_last_visible(s: Seq<char>)
    ensures
        0 <= after_last_visible(s) <= s.len(),
        forall|i: int| after_last_visible(s) <= i < s.len() ==> is_white_space(#[trigger] s[i]),
        after_last_visible(s) > 0 ==> !is_white_space(s[after_last_visible(s) - 1]),
    decreases s.len(),
{
    if s.len() > 0 && is_white_space(s.last()) {
        let front = s.drop_last();
        lemma_after_last_visible(front);
        assert forall|i: int| after_last_visible(s) <= i < s.len() implies is_white_space(
            #[trigger] s[i],
        ) by {
            if i < s.len() - 1 {
                assert(front[i] == s[i]);
            }
        }
        if after_last_visible(front) > 0 {
            assert(front[after_last_visible(front) - 1] == s[after_last_visible(s) - 1]);
        }
    }
}

/// Trimming takes away white space only, and all of it at both ends: a text
/// with a visible character is some white space, then its trimmed text,
/// then some white space, and the trimmed text neither begins nor ends with
/// white space. A text without a visible character is trimmed to nothing.
pub proof fn lemma_trimmed(s: Seq<char>)
    ensures
        trimmed(s).len() > 0 ==> {
            &&& !is_white_space(trimmed(s).first())
            &&& !is_white_space(trimmed(s).last())
            &&& s == s.take(first_visible(s)) + trimmed(s) + s.skip(after_last_visible(s))
        },
        trimmed(s).len() == 0 <==> forall|i: int|
            0 <= i < s.len() ==> is_white_space(#[trigger] s[i]),
        forall|i: int| 0 <= i < first_visible(s) ==> is_white_space(#[trigger] s[i]),
        forall|i: int| after_last_visible(s) <= i < s.len() ==> is_white_space(#[trigger] s[i]),
{
    lemma_first_visible(s);
    lemma_after_last_visible(s);
    let from = first_visible(s);
    let to = after_last_visible(s);
    if from < to {
        assert(trimmed(s).first() == s[from]);
        assert(trimmed(s).last() == s[to - 1]);
        assert(s =~= s.take(from) + trimmed(s) + s.skip(to));
    }
}

/// Whether `c` is white space.
pub fn is_space(c: char) -> (out: bool)
    ensures
        out == is_white_space(c),
{
    let code: u32 = c as u32;
    (0x09 <= code && code <= 0x0D) || code == 0x20 || code == 0x85 || code == 0xA0 || code
        == 0x1680 || (0x2000 <= code && code <= 0x200A) || code == 0x2028 || code == 0x2029
        || code == 0x202F || code == 0x205F || code == 0x3000
}

/// Makes a record line of what was read from the receiver: the text without
/// the white space around it, or nothing where only white space, or nothing
/// at all, was read.
pub fn captured_line(buffer: &str) -> (out: Option<String>)
    ensures
        match out {
            Some(line) => captured(buffer@) == Some(line@),
            None => captured(buffer@) is None,
        },
{
    let chars = chars_of(buffer);
    let n = chars.len();
    let mut from: usize = 0;
    while from < n && is_space(chars[from])
        invariant
            from <= n,
            n == chars.len(),
            forall|i: int| 0 <= i < from ==> is_white_space(#[trigger] chars@[i]),
        decreases n - from,
    {
        from += 1;
    }
    let mut to: usize = n;
    while to > from && is_space(chars[to - 1])
        invariant
            from <= to <= n,
            n == chars.len(),
            forall|i: int| to <= i < n ==> is_white_space(#[trigger] chars@[i]),
        decreases to - from,
    {
        to -= 1;
    }
    proof {
        lemma_first_visible_is(chars@, from as int);
        if to > from {
            lemma_after_last_visible_is(chars@, to as int);
        } else if from < n {
            assert(is_white_space(chars@[from as int]));
        } else {
            lemma_after_last_visible_is(chars@, 0);
        }
    }
    if from < to {
        Some(buffer.substring_char(from, to).to_owned())
    } else {
        None
    }
}

} // verus!
