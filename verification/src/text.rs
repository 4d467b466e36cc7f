//! Text as sequences of characters: cutting a line at a separator and putting
//! the pieces together again.

use vstd::prelude::*;

verus! {

/// Where `mark` first stands in `s`: the least index that holds it, or
/// `s.len()` when no index does.
pub open spec fn first_index_of(s: Seq<char>, mark: char) -> int
    decreases s.len(),
{
    if s.len() == 0 || s[0] == mark {
        0
    } else {
        1 + first_index_of(s.drop_first(), mark)
    }
}

/// `s` holds no `mark`.
pub open spec fn free_of(s: Seq<char>, mark: char) -> bool {
    forall|i: int| 0 <= i < s.len() ==> s[i] != mark
}

/// The pieces that `s` falls into when it is cut at every `sep`: what stands
/// before the first `sep`, then the pieces of what follows it. A text without
/// `sep` is its own single piece, the empty text included.
pub open spec fn pieces(s: Seq<char>, sep: char) -> Seq<Seq<char>>
    decreases s.len(),
{
    let k = first_index_of(s, sep);
    if 0 <= k < s.len() {
        seq![s.take(k)] + pieces(s.skip(k + 1), sep)
    } else {
        seq![s]
    }
}

/// The parts written one after another with `sep` between neighbours.
pub open spec fn joined(parts: Seq<Seq<char>>, sep: char) -> Seq<char>
    decreases parts.len(),
{
    if parts.len() == 0 {
        Seq::empty()
    } else if parts.len() == 1 {
        parts[0]
    } else {
        parts[0] + seq![sep] + joined(parts.drop_first(), sep)
    }
}

/// Each character of `s`, with every `from` turned into `to`.
pub open spec fn replaced(s: Seq<char>, from: char, to: char) -> Seq<char> {
    Seq::new(s.len(), |i: int| if s[i] == from { to } else { s[i] })
}

/// `first_index_of` lies within `0..=s.len()`, nothing before it is `mark`,
/// and where it is an index of `s` it holds `mark`.
pub proof fn lemma_first_index_of(s: Seq<char>, mark: char)
    ensures
        0 <= first_index_of(s, mark) <= s.len(),
        free_of(s.take(first_index_of(s, mark)), mark),
        first_index_of(s, mark) < s.len() ==> s[first_index_of(s, mark)] == mark,
        first_index_of(s, mark) == s.len() <==> free_of(s, mark),
    decreases s.len(),
{
    if s.len() == 0 || s[0] == mark {
    } else {
        let rest = s.drop_first();
        lemma_first_index_of(rest, mark);
        let k = first_index_of(rest, mark);
        let front = s.take(k + 1);
        assert forall|i: int| 0 <= i < front.len() implies front[i] != mark by {
            if i > 0 {
                assert(rest.take(k)[i - 1] == s[i]);
            }
        }
        if k == rest.len() {
            assert forall|i: int| 0 <= i < s.len() implies s[i] != mark by {
                if i > 0 {
                    assert(rest[i - 1] == s[i]);
                }
            }
        } else {
            assert(s[k + 1] == rest[k]);
        }
    }
}

/// An index that holds `mark`, with no `mark` before it, is `first_index_of`;
/// so is `s.len()` when `s` is free of `mark`.
pub proof fn lemma_first_index_of_is(s: Seq<char>, mark: char, k: int)
    requires
        0 <= k <= s.len(),
        forall|i: int| 0 <= i < k ==> s[i] != mark,
        k < s.len() ==> s[k] == mark,
    ensures
        first_index_of(s, mark) == k,
{
    lemma_first_index_of(s, mark);
    let f = first_index_of(s, mark);
    if f < k {
        assert(s[f] == mark);
    } else if k < f {
        assert(s.take(f)[k] == s[k]);
    }
}

/// Cutting at `sep` always leaves at least one piece, and no piece holds `sep`.
pub proof fn lemma_pieces_free_of_sep(s: Seq<char>, sep: char)
    ensures
        pieces(s, sep).len() >= 1,
        forall|i: int| 0 <= i < pieces(s, sep).len() ==> free_of(#[trigger] pieces(s, sep)[i], sep),
    decreases s.len(),
{
    lemma_first_index_of(s, sep);
    let k = first_index_of(s, sep);
    if 0 <= k < s.len() {
        lemma_pieces_free_of_sep(s.skip(k + 1), sep);
        let tail = pieces(s.skip(k + 1), sep);
        assert forall|i: int| 0 <= i < pieces(s, sep).len() implies free_of(
            #[trigger] pieces(s, sep)[i],
            sep,
        ) by {
            if i > 0 {
                assert(pieces(s, sep)[i] == tail[i - 1]);
            }
        }
    }
}

/// Joining the pieces of a text with the separator it was cut at gives the
/// text back.
pub proof fn lemma_joined_pieces(s: Seq<char>, sep: char)
    ensures
        joined(pieces(s, sep), sep) == s,
    decreases s.len(),
{
    lemma_first_index_of(s, sep);
    let k = first_index_of(s, sep);
    if 0 <= k < s.len() {
        let tail = pieces(s.skip(k + 1), sep);
        lemma_joined_pieces(s.skip(k + 1), sep);
        lemma_pieces_free_of_sep(s.skip(k + 1), sep);
        let all = pieces(s, sep);
        assert(all.drop_first() =~= tail);
        assert(all[0] == s.take(k));
        assert(s.take(k) + seq![sep] + s.skip(k + 1) =~= s);
    }
}

/// Cutting a join gives the parts back: for one part or more, each free of the
/// separator, the pieces of their join are the parts themselves.
pub proof fn lemma_pieces_joined(parts: Seq<Seq<char>>, sep: char)
    requires
        parts.len() >= 1,
        forall|i: int| 0 <= i < parts.len() ==> free_of(#[trigger] parts[i], sep),
    ensures
        pieces(joined(parts, sep), sep) == parts,
    decreases parts.len(),
{
    let s = joined(parts, sep);
    if parts.len() == 1 {
        assert(free_of(parts[0], sep));
        lemma_first_index_of(s, sep);
        assert(pieces(s, sep) =~= parts);
    } else {
        let head = parts[0];
        let rest = parts.drop_first();
        assert forall|i: int| 0 <= i < rest.len() implies free_of(#[trigger] rest[i], sep) by {
            assert(rest[i] == parts[i + 1]);
        }
        lemma_pieces_joined(rest, sep);
        let k = head.len() as int;
        assert(free_of(head, sep));
        assert(s[k] == sep);
        assert forall|i: int| 0 <= i < k implies s[i] != sep by {
            assert(s[i] == head[i]);
        }
        lemma_first_index_of_is(s, sep, k);
        assert(s.take(k) =~= head);
        assert(s.skip(k + 1) =~= joined(rest, sep));
        assert(pieces(s, sep) =~= parts);
    }
}

/// A text free of the separator is its own single piece.
pub proof fn lemma_pieces_of_free(s: Seq<char>, sep: char)
    requires
        free_of(s, sep),
    ensures
        pieces(s, sep) == seq![s],
{
    lemma_first_index_of(s, sep);
}

/// Joining the pieces with another character in place of the separator is the
/// text with every separator replaced by that character.
pub proof fn lemma_joined_pieces_replaces(s: Seq<char>, sep: char, to: char)
    ensures
        joined(pieces(s, sep), to) == replaced(s, sep, to),
    decreases s.len(),
{
    lemma_first_index_of(s, sep);
    let k = first_index_of(s, sep);
    if 0 <= k < s.len() {
        let tail = pieces(s.skip(k + 1), sep);
        lemma_joined_pieces_replaces(s.skip(k + 1), sep, to);
        lemma_pieces_free_of_sep(s.skip(k + 1), sep);
        let all = pieces(s, sep);
        assert(all.drop_first() =~= tail);
        assert(all[0] == s.take(k));
        assert forall|i: int| 0 <= i < k implies s[i] != sep by {
            assert(s.take(k)[i] == s[i]);
        }
        assert(s.take(k) + seq![to] + replaced(s.skip(k + 1), sep, to) =~= replaced(s, sep, to));
    } else {
        assert(free_of(s, sep));
        assert(replaced(s, sep, to) =~= s);
    }
}

/// The characters of `s`, in order.
pub fn chars_of(s: &str) -> (out: Vec<char>)
    ensures
        out@ == s@,
{
    let mut out: Vec<char> = Vec::new();
    for c in it: s.chars()
        invariant
            out@ == it.seq().take(it.index()),
            it.seq() == s@,
    {
        out.push(c);
    }
    out
}

/// Cuts `line` at every `sep` and hands out the pieces in order, each a slice
/// of `line`.
pub fn split_on<'a>(line: &'a str, sep: char) -> (out: Vec<&'a str>)
    ensures
        out.deep_view() == pieces(line@, sep),
{
    let chars = chars_of(line);
    let n = chars.len();
    let mut out: Vec<&'a str> = Vec::new();
    let mut start: usize = 0;
    let mut i: usize = 0;
    proof {
        assert(line@.skip(0) =~= line@);
        assert(out.deep_view() + pieces(line@, sep) =~= pieces(line@, sep));
    }
    while i < n
        invariant
            chars@ == line@,
            n == chars.len(),
            start <= i <= n,
            forall|j: int| start <= j < i ==> line@[j] != sep,
            pieces(line@, sep) == out.deep_view() + pieces(line@.skip(start as int), sep),
        decreases n - i,
    {
        if chars[i] == sep {
            let piece = line.substring_char(start, i);
            proof {
                let rest = line@.skip(start as int);
                lemma_first_index_of_is(rest, sep, i - start);
                assert(rest.take(i - start) =~= piece@);
                assert(rest.skip(i - start + 1) =~= line@.skip(i + 1));
                assert(out.deep_view().push(piece@) + pieces(line@.skip(i + 1), sep)
                    =~= out.deep_view() + pieces(rest, sep));
            }
            let ghost before = out.deep_view();
            out.push(piece);
            assert(out.deep_view() =~= before.push(piece@));
            start = i + 1;
        }
        i += 1;
    }
    let piece = line.substring_char(start, n);
    proof {
        let rest = line@.skip(start as int);
        lemma_first_index_of_is(rest, sep, n - start);
        assert(rest =~= piece@);
    }
    let ghost before = out.deep_view();
    out.push(piece);
    assert(out.deep_view() =~= before.push(piece@));
    out
}

} // verus!
