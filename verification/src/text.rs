//! Splitting text at a separator character.
//!
//! `split` is the mathematical model; `split_ranges` computes it over a
//! vector of characters and reports each piece as a half-open index range.

use vstd::prelude::*;

verus! {

/// The pieces of `s` between occurrences of `sep`, in order.
///
/// There is always at least one piece; a separator at either end, or two
/// separators in a row, give an empty piece.
pub open spec fn split(s: Seq<char>, sep: char) -> Seq<Seq<char>>
    decreases s.len(),
{
    if s.len() == 0 {
        seq![Seq::<char>::empty()]
    } else {
        let init = split(s.drop_last(), sep);
        if s.last() == sep {
            init.push(Seq::<char>::empty())
        } else {
            init.drop_last().push(init.last().push(s.last()))
        }
    }
}

/// The parts in order, with `sep` between neighbours.
pub open spec fn join_with(parts: Seq<Seq<char>>, sep: Seq<char>) -> Seq<char>
    decreases parts.len(),
{
    if parts.len() == 0 {
        Seq::<char>::empty()
    } else if parts.len() == 1 {
        parts[0]
    } else {
        join_with(parts.drop_last(), sep) + sep + parts.last()
    }
}

/// The pieces joined again, with the character `sep` between neighbours.
pub open spec fn join(parts: Seq<Seq<char>>, sep: char) -> Seq<char> {
    join_with(parts, seq![sep])
}

/// The number of positions of `s` that hold `c`.
pub open spec fn count(s: Seq<char>, c: char) -> nat
    decreases s.len(),
{
    if s.len() == 0 {
        0
    } else {
        count(s.drop_last(), c) + if s.last() == c {
            1nat
        } else {
            0nat
        }
    }
}

/// The text that each index range selects.
pub open spec fn pieces(text: Seq<char>, ranges: Seq<(usize, usize)>) -> Seq<Seq<char>> {
    Seq::new(ranges.len(), |i: int| text.subrange(ranges[i].0 as int, ranges[i].1 as int))
}

/// `ranges` cuts `text[lo..hi]` into consecutive pieces with exactly one
/// separator between neighbours and none inside a piece.
pub open spec fn tiles(
    text: Seq<char>,
    lo: int,
    hi: int,
    sep: char,
    ranges: Seq<(usize, usize)>,
) -> bool {
    &&& 0 <= lo <= hi <= text.len()
    &&& ranges.len() >= 1
    &&& ranges[0].0 == lo
    &&& ranges.last().1 == hi
    &&& forall|i: int|
        0 <= i < ranges.len() ==> lo <= (#[trigger] ranges[i]).0 <= ranges[i].1 <= hi
    &&& forall|i: int, j: int|
        0 <= i < ranges.len() && j == i + 1 && j < ranges.len() ==> (#[trigger] ranges[j]).0
            == (#[trigger] ranges[i]).1 + 1 && text[ranges[i].1 as int] == sep
    &&& forall|i: int, k: int|
        0 <= i < ranges.len() && (#[trigger] ranges[i]).0 <= k < ranges[i].1 ==> #[trigger] text[k]
            != sep
}

/// A split always has a piece, one more than there are separators.
pub proof fn lemma_split_len(s: Seq<char>, sep: char)
    ensures
        split(s, sep).len() == count(s, sep) + 1,
    decreases s.len(),
{
    if s.len() > 0 {
        lemma_split_len(s.drop_last(), sep);
    }
}

/// No piece of a split holds the separator.
pub proof fn lemma_split_pieces_free(s: Seq<char>, sep: char)
    ensures
        forall|i: int, k: int|
            0 <= i < split(s, sep).len() && 0 <= k < split(s, sep)[i].len() ==> #[trigger] split(
                s,
                sep,
            )[i][k] != sep,
    decreases s.len(),
{
    if s.len() > 0 {
        lemma_split_len(s.drop_last(), sep);
        lemma_split_pieces_free(s.drop_last(), sep);
    }
}

/// Joining the pieces of a split gives the text back.
pub proof fn lemma_join_split(s: Seq<char>, sep: char)
    ensures
        join(split(s, sep), sep) == s,
    decreases s.len(),
{
    if s.len() > 0 {
        let init = split(s.drop_last(), sep);
        lemma_split_len(s.drop_last(), sep);
        lemma_join_split(s.drop_last(), sep);
        if s.last() == sep {
            let whole = init.push(Seq::<char>::empty());
            assert(whole.drop_last() == init);
            assert(join(whole, sep) == s);
        } else {
            let grown = init.last().push(s.last());
            let whole = init.drop_last().push(grown);
            assert(whole.drop_last() == init.drop_last());
            if init.len() == 1 {
                assert(join(whole, sep) == s);
            } else {
                assert(join(whole, sep) == join(init, sep).push(s.last()));
                assert(join(whole, sep) == s);
            }
        }
    }
}

/// The pieces of a text are determined by it: pieces that do not hold the
/// separator and that join to the text are the pieces of its split.
pub proof fn lemma_split_is_unique(s: Seq<char>, sep: char, parts: Seq<Seq<char>>)
    requires
        parts.len() >= 1,
        forall|i: int, k: int|
            0 <= i < parts.len() && 0 <= k < parts[i].len() ==> #[trigger] parts[i][k] != sep,
        join(parts, sep) == s,
    ensures
        parts == split(s, sep),
    decreases s.len(),
{
    let front = parts.drop_last();
    let last = parts.last();
    if parts.len() >= 2 {
        assert(join(parts, sep) == join(front, sep) + seq![sep] + last);
    }
    if s.len() == 0 {
        assert(parts =~~= split(s, sep));
    } else if last.len() == 0 {
        assert(join(front, sep) =~= s.drop_last());
        assert forall|i: int, k: int|
            0 <= i < front.len() && 0 <= k < front[i].len() implies #[trigger] front[i][k]
            != sep by {
            assert(front[i][k] == parts[i][k]);
        }
        lemma_split_is_unique(s.drop_last(), sep, front);
        assert(parts =~~= split(s, sep));
    } else {
        let shorter = front.push(last.drop_last());
        assert(shorter.drop_last() == front);
        assert(s.last() == last.last());
        assert(last.last() == parts[parts.len() - 1][last.len() - 1]);
        assert(join(shorter, sep) =~= s.drop_last());
        assert forall|i: int, k: int|
            0 <= i < shorter.len() && 0 <= k < shorter[i].len() implies #[trigger] shorter[i][k]
            != sep by {
            assert(shorter[i][k] == parts[i][k]);
        }
        lemma_split_is_unique(s.drop_last(), sep, shorter);
        assert(last.drop_last().push(s.last()) == last);
        assert(parts =~~= split(s, sep));
    }
}

/// No separator stands at either end of `s`, and no two stand in a row.
pub open spec fn is_tight(s: Seq<char>, sep: char) -> bool {
    &&& s.len() > 0
    &&& s[0] != sep
    &&& s.last() != sep
    &&& no_double(s, sep)
}

/// No two separators stand in a row.
pub open spec fn no_double(s: Seq<char>, sep: char) -> bool {
    forall|i: int, j: int|
        0 <= i && j == i + 1 && j < s.len() ==> !(#[trigger] s[i] == sep && #[trigger] s[j] == sep)
}

/// Every piece but the last has a character.
pub open spec fn front_pieces_nonempty(parts: Seq<Seq<char>>) -> bool {
    forall|i: int| 0 <= i < parts.len() - 1 ==> (#[trigger] parts[i]).len() > 0
}

/// The pieces before the last are without an empty one exactly where the
/// text does not start with a separator and holds no two in a row.
proof fn lemma_front_pieces(s: Seq<char>, sep: char)
    ensures
        front_pieces_nonempty(split(s, sep)) <==> (s.len() == 0 || (s[0] != sep && no_double(
            s,
            sep,
        ))),
    decreases s.len(),
{
    if s.len() > 0 {
        let rest = s.drop_last();
        let init = split(rest, sep);
        let whole = split(s, sep);
        lemma_split_len(rest, sep);
        lemma_front_pieces(rest, sep);
        if rest.len() > 0 {
            assert(rest[0] == s[0]);
            assert(rest.last() == s[s.len() - 2]);
        }
        if no_double(s, sep) {
            assert forall|i: int, j: int| 0 <= i && j == i + 1 && j < rest.len() implies !(
            #[trigger] rest[i] == sep && #[trigger] rest[j] == sep) by {
                assert(rest[i] == s[i] && rest[j] == s[j]);
            }
        }
        if s.last() == sep {
            assert(whole.drop_last() == init);
            if front_pieces_nonempty(whole) {
                assert forall|i: int| 0 <= i < init.len() - 1 implies (#[trigger] init[i]).len()
                    > 0 by {
                    assert(whole[i] == init[i]);
                }
                assert(whole[init.len() - 1].len() > 0);
                assert(rest.len() > 0 && rest.last() != sep);
                assert forall|i: int, j: int| 0 <= i && j == i + 1 && j < s.len() implies !(
                #[trigger] s[i] == sep && #[trigger] s[j] == sep) by {
                    if j < rest.len() {
                        assert(rest[i] == s[i] && rest[j] == s[j]);
                    }
                }
            }
            if s[0] != sep && no_double(s, sep) {
                assert(rest.len() > 0);
                assert(!(s[s.len() - 2] == sep && s[s.len() - 1] == sep));
                assert forall|i: int| 0 <= i < whole.len() - 1 implies (#[trigger] whole[i]).len()
                    > 0 by {
                    assert(whole[i] == init[i]);
                }
            }
        } else {
            assert(whole.drop_last() == init.drop_last());
            if front_pieces_nonempty(whole) {
                assert forall|i: int| 0 <= i < init.len() - 1 implies (#[trigger] init[i]).len()
                    > 0 by {
                    assert(whole[i] == init[i]);
                }
                assert forall|i: int, j: int| 0 <= i && j == i + 1 && j < s.len() implies !(
                #[trigger] s[i] == sep && #[trigger] s[j] == sep) by {
                    if j < rest.len() {
                        assert(rest[i] == s[i] && rest[j] == s[j]);
                    }
                }
            }
            if s[0] != sep && no_double(s, sep) {
                assert forall|i: int| 0 <= i < whole.len() - 1 implies (#[trigger] whole[i]).len()
                    > 0 by {
                    assert(whole[i] == init[i]);
                }
            }
        }
    }
}

/// A split has no empty piece exactly where the text is tight: an empty
/// piece comes from a separator at the start or the end, or from two in a
/// row.
pub proof fn lemma_no_empty_piece(s: Seq<char>, sep: char)
    ensures
        (forall|i: int| 0 <= i < split(s, sep).len() ==> (#[trigger] split(s, sep)[i]).len() > 0)
            <==> is_tight(s, sep),
{
    let whole = split(s, sep);
    lemma_split_len(s, sep);
    lemma_front_pieces(s, sep);
    assert(whole.last().len() == 0 <==> (s.len() == 0 || s.last() == sep)) by {
        if s.len() > 0 {
            lemma_split_len(s.drop_last(), sep);
        }
    }
    if is_tight(s, sep) {
        assert forall|i: int| 0 <= i < whole.len() implies (#[trigger] whole[i]).len() > 0 by {
            if i == whole.len() - 1 {
                assert(whole[i] == whole.last());
            }
        }
    }
    if forall|i: int| 0 <= i < whole.len() ==> (#[trigger] whole[i]).len() > 0 {
        assert(whole.last() == whole[whole.len() - 1]);
        assert(front_pieces_nonempty(whole));
    }
}

/// Joining pieces of which the last is not empty gives a text that is not
/// empty.
pub proof fn lemma_join_nonempty(parts: Seq<Seq<char>>, sep: char)
    requires
        parts.len() > 0,
        parts.last().len() > 0,
    ensures
        join(parts, sep).len() > 0,
{
}

/// Every character that is not the separator lies in some piece.
pub proof fn lemma_split_covers(s: Seq<char>, sep: char, i: int)
    requires
        0 <= i < s.len(),
        s[i] != sep,
    ensures
        exists|a: int, b: int|
            0 <= a < split(s, sep).len() && 0 <= b < split(s, sep)[a].len() && #[trigger] split(
                s,
                sep,
            )[a][b] == s[i],
    decreases s.len(),
{
    let init = split(s.drop_last(), sep);
    let whole = split(s, sep);
    lemma_split_len(s.drop_last(), sep);
    if i < s.len() - 1 {
        lemma_split_covers(s.drop_last(), sep, i);
        let (a, b): (int, int) = choose|a: int, b: int|
            0 <= a < init.len() && 0 <= b < init[a].len() && #[trigger] init[a][b]
                == s.drop_last()[i];
        assert(whole[a][b] == s[i]);
    } else {
        let a = whole.len() - 1;
        let b = init.last().len() as int;
        assert(whole[a][b] == s[i]);
    }
}

/// A text without the separator is its own single piece.
pub proof fn lemma_split_without(s: Seq<char>, sep: char)
    requires
        forall|i: int| 0 <= i < s.len() ==> s[i] != sep,
    ensures
        split(s, sep) == seq![s],
    decreases s.len(),
{
    if s.len() > 0 {
        lemma_split_without(s.drop_last(), sep);
        assert(s.drop_last().push(s.last()) == s);
        assert(split(s, sep) =~~= seq![s]);
    } else {
        assert(split(s, sep) =~~= seq![s]);
    }
}

/// Where ranges tile a stretch of text, joining the first `k` pieces gives
/// the text from the start of the stretch to the end of piece `k - 1`.
pub proof fn lemma_join_tiles_prefix(
    text: Seq<char>,
    lo: int,
    hi: int,
    sep: char,
    ranges: Seq<(usize, usize)>,
    k: int,
)
    requires
        tiles(text, lo, hi, sep, ranges),
        1 <= k <= ranges.len(),
    ensures
        join(pieces(text, ranges).subrange(0, k), sep) == text.subrange(
            lo,
            ranges[k - 1].1 as int,
        ),
    decreases k,
{
    let first = pieces(text, ranges).subrange(0, k);
    if k == 1 {
        assert(first[0] == text.subrange(lo, ranges[0].1 as int));
    } else {
        lemma_join_tiles_prefix(text, lo, hi, sep, ranges, k - 1);
        assert(first.drop_last() == pieces(text, ranges).subrange(0, k - 1));
        let before = ranges[k - 2];
        let here = ranges[k - 1];
        assert(here.0 == before.1 + 1 && text[before.1 as int] == sep);
        assert(first.last() == text.subrange(here.0 as int, here.1 as int));
        assert(join(first, sep) == text.subrange(lo, here.1 as int));
    }
}

/// A tiling whose last piece is still open grows by one character that is
/// not the separator.
proof fn lemma_tiles_grow(
    text: Seq<char>,
    lo: int,
    sep: char,
    done: Seq<(usize, usize)>,
    start: usize,
    i: usize,
)
    requires
        tiles(text, lo, i as int, sep, done.push((start, i))),
        i < text.len(),
        i < usize::MAX,
        text[i as int] != sep,
    ensures
        tiles(text, lo, i + 1, sep, done.push((start, (i + 1) as usize))),
{
    let before = done.push((start, i));
    let after = done.push((start, (i + 1) as usize));
    let n = done.len() as int;
    assert(before[n] == (start, i));
    assert(after[0].0 == before[0].0);
    assert forall|a: int| 0 <= a < after.len() implies lo <= (#[trigger] after[a]).0
        <= after[a].1 <= i + 1 by {
        assert(after[a].0 == before[a].0 && after[a].1 <= before[a].1 + 1);
    }
    assert forall|a: int, b: int|
        0 <= a < after.len() && b == a + 1 && b < after.len() implies (#[trigger] after[b]).0 == (
    #[trigger] after[a]).1 + 1 && text[after[a].1 as int] == sep by {
        assert(after[a] == before[a]);
        assert(after[b].0 == before[b].0);
    }
    assert forall|a: int, k: int|
        0 <= a < after.len() && (#[trigger] after[a]).0 <= k < after[a].1 implies #[trigger] text[k]
        != sep by {
        if a < n {
            assert(after[a] == before[a]);
        } else if k < i {
            assert(before[a].0 <= k < before[a].1);
        }
    }
}

/// A tiling whose last piece is still open closes that piece at a
/// separator and opens an empty one behind it.
proof fn lemma_tiles_cut(
    text: Seq<char>,
    lo: int,
    sep: char,
    done: Seq<(usize, usize)>,
    start: usize,
    i: usize,
)
    requires
        tiles(text, lo, i as int, sep, done.push((start, i))),
        i < text.len(),
        i < usize::MAX,
        text[i as int] == sep,
    ensures
        tiles(
            text,
            lo,
            i + 1,
            sep,
            done.push((start, i)).push(((i + 1) as usize, (i + 1) as usize)),
        ),
{
    let before = done.push((start, i));
    let after = before.push(((i + 1) as usize, (i + 1) as usize));
    let n = before.len() as int;
    assert(before[n - 1] == (start, i));
    assert(after[0] == before[0]);
    assert forall|a: int| 0 <= a < after.len() implies lo <= (#[trigger] after[a]).0
        <= after[a].1 <= i + 1 by {
        if a < n {
            assert(after[a] == before[a]);
        }
    }
    assert forall|a: int, b: int|
        0 <= a < after.len() && b == a + 1 && b < after.len() implies (#[trigger] after[b]).0 == (
    #[trigger] after[a]).1 + 1 && text[after[a].1 as int] == sep by {
        assert(after[a] == before[a]);
        if b < n {
            assert(after[b] == before[b]);
        }
    }
    assert forall|a: int, k: int|
        0 <= a < after.len() && (#[trigger] after[a]).0 <= k < after[a].1 implies #[trigger] text[k]
        != sep by {
        assert(after[a] == before[a]);
    }
}

/// The index ranges of the pieces of `text[lo..hi]` split at `sep`.
pub(crate) fn split_ranges(text: &Vec<char>, lo: usize, hi: usize, sep: char) -> (ranges: Vec<
    (usize, usize),
>)
    requires
        lo <= hi <= text.len(),
    ensures
        tiles(text@, lo as int, hi as int, sep, ranges@),
        pieces(text@, ranges@) == split(text@.subrange(lo as int, hi as int), sep),
{
    let mut ranges: Vec<(usize, usize)> = Vec::new();
    let mut start: usize = lo;
    let mut i: usize = lo;
    proof {
        assert(text@.subrange(lo as int, i as int).len() == 0);
        assert(pieces(text@, ranges@.push((start, i))) =~~= split(
            text@.subrange(lo as int, i as int),
            sep,
        ));
    }
    while i < hi
        invariant
            lo <= start <= i <= hi <= text.len(),
            tiles(text@, lo as int, i as int, sep, ranges@.push((start, i))),
            pieces(text@, ranges@.push((start, i))) == split(
                text@.subrange(lo as int, i as int),
                sep,
            ),
        decreases hi - i,
    {
        let ghost done = ranges@;
        let ghost before = ranges@.push((start, i));
        proof {
            let next = text@.subrange(lo as int, i + 1);
            assert(next.drop_last() == text@.subrange(lo as int, i as int));
            assert(next.last() == text@[i as int]);
        }
        if text[i] == sep {
            ranges.push((start, i));
            proof {
                lemma_tiles_cut(text@, lo as int, sep, done, start, i);
                let after = before.push(((i + 1) as usize, (i + 1) as usize));
                assert(pieces(text@, after) =~~= pieces(text@, before).push(Seq::<char>::empty()));
            }
            start = i + 1;
        } else {
            proof {
                lemma_tiles_grow(text@, lo as int, sep, done, start, i);
                let after = done.push((start, (i + 1) as usize));
                assert(pieces(text@, after) =~~= pieces(text@, before).drop_last().push(
                    pieces(text@, before).last().push(text@[i as int]),
                ));
            }
        }
        i += 1;
    }
    ranges.push((start, hi));
    ranges
}

/// Whether two texts hold the same characters.
pub fn same_text(a: &str, b: &str) -> (same: bool)
    ensures
        same == (a@ == b@),
{
    let left = a.to_owned();
    let right = b.to_owned();
    left == right
}

/// The text of `a` followed by the text of `b`.
pub fn appended(a: &str, b: &str) -> (both: String)
    ensures
        both@ == a@ + b@,
{
    let mut both = a.to_owned();
    both.append(b);
    both
}

/// The texts that a list of strings holds.
pub open spec fn texts(parts: Seq<String>) -> Seq<Seq<char>> {
    Seq::new(parts.len(), |i: int| parts[i]@)
}

/// The strings in order, with `sep` between neighbours.
pub fn join_strings(parts: &Vec<String>, sep: &str) -> (joined: String)
    ensures
        joined@ == join_with(texts(parts@), sep@),
{
    let mut joined = String::new();
    let mut i: usize = 0;
    while i < parts.len()
        invariant
            i <= parts.len(),
            joined@ == join_with(texts(parts@).subrange(0, i as int), sep@),
        decreases parts.len() - i,
    {
        proof {
            let before = texts(parts@).subrange(0, i as int);
            let after = texts(parts@).subrange(0, i + 1);
            assert(after.drop_last() == before);
            assert(after.last() == parts[i as int]@);
        }
        if i > 0 {
            joined.append(sep);
        }
        joined.append(parts[i].as_str());
        i += 1;
    }
    proof {
        assert(texts(parts@).subrange(0, parts.len() as int) == texts(parts@));
    }
    joined
}

/// The characters of `s`, in order.
pub fn chars_of(s: &str) -> (v: Vec<char>)
    ensures
        v@ == s@,
{
    let mut v: Vec<char> = Vec::new();
    for c in it: s.chars()
        invariant
            it.seq() == s@,
            v@ == s@.subrange(0, it.index() as int),
    {
        v.push(c);
    }
    v
}

} // verus!
