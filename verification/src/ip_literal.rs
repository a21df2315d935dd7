//! The textual forms of IP addresses.
//!
//! An IPv4 literal is four decimal octets separated by dots. An IPv6
//! literal is eight groups of hexadecimal digits separated by colons, in
//! which one run of zero groups may be elided as `::` and the last two
//! groups may be written as an IPv4 literal. Nothing else is accepted: no
//! zone identifier, no surrounding space, no octet with a leading zero.
//! These are the texts that the standard library's address parser takes.

use crate::text::{chars_of, lemma_split_covers, pieces, split, split_ranges, tiles};
use vstd::prelude::*;

verus! {

pub open spec fn is_dec_digit(c: char) -> bool {
    '0' <= c <= '9'
}

pub open spec fn is_hex_digit(c: char) -> bool {
    is_dec_digit(c) || 'a' <= c <= 'f' || 'A' <= c <= 'F'
}

/// The number that a text of decimal digits denotes.
pub open spec fn decimal_value(s: Seq<char>) -> nat
    decreases s.len(),
{
    if s.len() == 0 {
        0
    } else {
        10 * decimal_value(s.drop_last()) + (s.last() as u32 - '0' as u32) as nat
    }
}

/// One to three decimal digits that denote at most 255, with no leading
/// zero before another digit.
pub open spec fn is_octet(s: Seq<char>) -> bool {
    &&& 1 <= s.len() <= 3
    &&& forall|i: int| 0 <= i < s.len() ==> is_dec_digit(#[trigger] s[i])
    &&& (s.len() > 1 ==> s[0] != '0')
    &&& decimal_value(s) <= 255
}

/// Four octets separated by dots.
pub open spec fn is_ipv4_literal(s: Seq<char>) -> bool {
    &&& split(s, '.').len() == 4
    &&& forall|i: int| 0 <= i < 4 ==> is_octet(#[trigger] split(s, '.')[i])
}

/// One to four hexadecimal digits.
pub open spec fn is_hex_group(s: Seq<char>) -> bool {
    &&& 1 <= s.len() <= 4
    &&& forall|i: int| 0 <= i < s.len() ==> is_hex_digit(#[trigger] s[i])
}

/// The number that `text[lo..hi]` denotes, if it holds decimal digits only.
fn octet_value(text: &Vec<char>, lo: usize, hi: usize) -> (value: Option<u32>)
    requires
        lo <= hi <= text.len(),
        hi - lo <= 3,
    ensures
        value is Some <==> forall|i: int|
            0 <= i < hi - lo ==> is_dec_digit(#[trigger] text@.subrange(lo as int, hi as int)[i]),
        value matches Some(v) ==> v == decimal_value(text@.subrange(lo as int, hi as int)),
{
    let ghost s = text@.subrange(lo as int, hi as int);
    let mut value: u32 = 0;
    let mut i: usize = lo;
    while i < hi
        invariant
            lo <= i <= hi <= text.len(),
            hi - lo <= 3,
            s == text@.subrange(lo as int, hi as int),
            forall|j: int| 0 <= j < i - lo ==> is_dec_digit(#[trigger] s[j]),
            value == decimal_value(s.subrange(0, i - lo)),
            value <= 999,
            i - lo == 0 ==> value == 0,
            i - lo == 1 ==> value <= 9,
            i - lo == 2 ==> value <= 99,
        decreases hi - i,
    {
        let c = text[i];
        proof {
            assert(s[i - lo] == c);
            assert(s.subrange(0, i - lo + 1).drop_last() == s.subrange(0, i - lo));
        }
        if '0' <= c && c <= '9' {
            value = value * 10 + (c as u32 - '0' as u32);
        } else {
            return None;
        }
        i += 1;
    }
    proof {
        assert(s.subrange(0, hi - lo) == s);
    }
    Some(value)
}

/// Whether `text[lo..hi]` is an octet.
fn is_octet_at(text: &Vec<char>, lo: usize, hi: usize) -> (yes: bool)
    requires
        lo <= hi <= text.len(),
    ensures
        yes == is_octet(text@.subrange(lo as int, hi as int)),
{
    if hi - lo < 1 || hi - lo > 3 {
        return false;
    }
    proof {
        assert(text@.subrange(lo as int, hi as int)[0] == text@[lo as int]);
    }
    if hi - lo > 1 && text[lo] == '0' {
        return false;
    }
    match octet_value(text, lo, hi) {
        Some(v) => v <= 255,
        None => false,
    }
}

/// Whether `text[lo..hi]` is an IPv4 literal.
pub(crate) fn is_ipv4_at(text: &Vec<char>, lo: usize, hi: usize) -> (yes: bool)
    requires
        lo <= hi <= text.len(),
    ensures
        yes == is_ipv4_literal(text@.subrange(lo as int, hi as int)),
{
    let parts = split_ranges(text, lo, hi, '.');
    if parts.len() != 4 {
        return false;
    }
    let ghost p = split(text@.subrange(lo as int, hi as int), '.');
    let mut i: usize = 0;
    while i < 4
        invariant
            i <= 4,
            parts.len() == 4,
            tiles(text@, lo as int, hi as int, '.', parts@),
            p == pieces(text@, parts@),
            p == split(text@.subrange(lo as int, hi as int), '.'),
            forall|j: int| 0 <= j < i ==> is_octet(#[trigger] p[j]),
        decreases 4 - i,
    {
        let (from, to) = parts[i];
        proof {
            assert(p[i as int] == text@.subrange(from as int, to as int));
        }
        if !is_octet_at(text, from, to) {
            return false;
        }
        i += 1;
    }
    true
}

/// Colon-separated pieces that are all groups of hexadecimal digits, but
/// that the last may be an IPv4 literal where `v4_tail` allows it.
pub open spec fn is_group_run(p: Seq<Seq<char>>, v4_tail: bool) -> bool {
    &&& p.len() >= 1
    &&& forall|i: int| 0 <= i < p.len() - 1 ==> is_hex_group(#[trigger] p[i])
    &&& (is_hex_group(p.last()) || (v4_tail && is_ipv4_literal(p.last())))
}

/// The number of 16-bit groups that a run stands for: an IPv4 literal at
/// its end stands for two.
pub open spec fn run_width(p: Seq<Seq<char>>) -> int {
    if is_hex_group(p.last()) {
        p.len() as int
    } else {
        p.len() as int + 1
    }
}

/// The number of groups written on one side of `::`, where that side is
/// well formed: nothing at all, or a run.
pub open spec fn side_width(p: Seq<Seq<char>>, v4_tail: bool) -> Option<int> {
    if p.len() == 1 && p[0].len() == 0 {
        Some(0int)
    } else if is_group_run(p, v4_tail) {
        Some(run_width(p))
    } else {
        None
    }
}

/// The colon-separated pieces `p` are those of an address whose `::` is
/// the empty piece `k`: both sides are well formed and leave at least one
/// group for the `::` to stand for.
pub open spec fn is_elided_at(p: Seq<Seq<char>>, k: int) -> bool {
    &&& 1 <= k <= p.len() - 2
    &&& p[k].len() == 0
    &&& side_width(p.subrange(0, k), false) matches Some(h)
    &&& side_width(p.subrange(k + 1, p.len() as int), true) matches Some(t)
    &&& h + t <= 7
}

/// Eight groups in full, or fewer around one `::`.
pub open spec fn is_ipv6_literal(s: Seq<char>) -> bool {
    ||| is_group_run(split(s, ':'), true) && run_width(split(s, ':')) == 8
    ||| exists|k: int| is_elided_at(split(s, ':'), k)
}

/// Whether `text[lo..hi]` is a group of hexadecimal digits.
fn is_hex_group_at(text: &Vec<char>, lo: usize, hi: usize) -> (yes: bool)
    requires
        lo <= hi <= text.len(),
    ensures
        yes == is_hex_group(text@.subrange(lo as int, hi as int)),
{
    if hi - lo < 1 || hi - lo > 4 {
        return false;
    }
    let ghost s = text@.subrange(lo as int, hi as int);
    let mut i: usize = lo;
    while i < hi
        invariant
            lo <= i <= hi <= text.len(),
            s == text@.subrange(lo as int, hi as int),
            forall|j: int| 0 <= j < i - lo ==> is_hex_digit(#[trigger] s[j]),
        decreases hi - i,
    {
        let c = text[i];
        proof {
            assert(s[i - lo] == c);
        }
        let digit = ('0' <= c && c <= '9') || ('a' <= c && c <= 'f') || ('A' <= c && c <= 'F');
        if !digit {
            return false;
        }
        i += 1;
    }
    true
}

/// The width of the run that the pieces `from..to` form, if they form one.
fn run_width_at(
    text: &Vec<char>,
    parts: &Vec<(usize, usize)>,
    from: usize,
    to: usize,
    v4_tail: bool,
) -> (width: Option<usize>)
    requires
        from < to <= parts.len() <= 9,
        forall|i: int| 0 <= i < parts.len() ==> (#[trigger] parts[i]).0 <= parts[i].1 <= text.len(),
    ensures
        width is Some <==> is_group_run(
            pieces(text@, parts@).subrange(from as int, to as int),
            v4_tail,
        ),
        width matches Some(w) ==> w == run_width(
            pieces(text@, parts@).subrange(from as int, to as int),
        ),
{
    let ghost run = pieces(text@, parts@).subrange(from as int, to as int);
    let mut i: usize = from;
    while i < to - 1
        invariant
            from <= i < to <= parts.len(),
            run == pieces(text@, parts@).subrange(from as int, to as int),
            forall|i: int|
                0 <= i < parts.len() ==> (#[trigger] parts[i]).0 <= parts[i].1 <= text.len(),
            forall|j: int| 0 <= j < i - from ==> is_hex_group(#[trigger] run[j]),
        decreases to - i,
    {
        let (lo, hi) = parts[i];
        proof {
            assert(run[i - from] == text@.subrange(lo as int, hi as int));
        }
        if !is_hex_group_at(text, lo, hi) {
            return None;
        }
        i += 1;
    }
    let (lo, hi) = parts[to - 1];
    proof {
        assert(run.last() == text@.subrange(lo as int, hi as int));
    }
    if is_hex_group_at(text, lo, hi) {
        Some(to - from)
    } else if v4_tail && is_ipv4_at(text, lo, hi) {
        Some(to - from + 1)
    } else {
        None
    }
}

/// The index of the first empty range, if there is one.
fn first_empty_range(ranges: &Vec<(usize, usize)>) -> (found: Option<usize>)
    ensures
        match found {
            Some(e) => {
                &&& e < ranges.len()
                &&& ranges[e as int].0 == ranges[e as int].1
                &&& forall|j: int| 0 <= j < e ==> (#[trigger] ranges[j]).0 != ranges[j].1
            },
            None => forall|j: int| 0 <= j < ranges.len() ==> (#[trigger] ranges[j]).0 != ranges[j].1,
        },
{
    let mut i: usize = 0;
    while i < ranges.len()
        invariant
            i <= ranges.len(),
            forall|j: int| 0 <= j < i ==> (#[trigger] ranges[j]).0 != ranges[j].1,
        decreases ranges.len() - i,
    {
        if ranges[i].0 == ranges[i].1 {
            return Some(i);
        }
        i += 1;
    }
    None
}

/// A run has no empty piece.
pub proof fn lemma_run_pieces_nonempty(p: Seq<Seq<char>>, v4_tail: bool)
    requires
        is_group_run(p, v4_tail),
    ensures
        forall|i: int| 0 <= i < p.len() ==> (#[trigger] p[i]).len() > 0,
{
    assert(!is_ipv4_literal(Seq::<char>::empty()));
    assert forall|i: int| 0 <= i < p.len() implies (#[trigger] p[i]).len() > 0 by {
        if i < p.len() - 1 {
            assert(is_hex_group(p[i]));
        } else {
            assert(p[i] == p.last());
            if p[i].len() == 0 {
                assert(p[i] =~= Seq::<char>::empty());
            }
        }
    }
}

/// The `::` of an address can only be where its first empty piece says:
/// at that piece, or behind it when the text starts with `::`.
pub proof fn lemma_elision_place(p: Seq<Seq<char>>, e: int, k: int)
    requires
        0 <= e < p.len(),
        p[e].len() == 0,
        forall|j: int| 0 <= j < e ==> (#[trigger] p[j]).len() > 0,
        is_elided_at(p, k),
    ensures
        k == if e == 0 {
            1int
        } else {
            e
        },
{
    let head = p.subrange(0, k);
    if head.len() == 1 && head[0].len() == 0 {
        assert(head[0] == p[0]);
        if e > 0 {
            assert(p[0].len() > 0);
        }
    } else {
        lemma_run_pieces_nonempty(head, false);
        if e < k {
            assert(head[e] == p[e]);
        }
        if k < e {
            assert(p[k].len() > 0);
        }
    }
}

/// No address has more than nine colon-separated pieces.
pub proof fn lemma_too_many_pieces(s: Seq<char>)
    requires
        split(s, ':').len() > 9,
    ensures
        !is_ipv6_literal(s),
{
    let p = split(s, ':');
    assert forall|k: int| !is_elided_at(p, k) by {
        if is_elided_at(p, k) {
            let head = p.subrange(0, k);
            let tail = p.subrange(k + 1, p.len() as int);
            assert(head.len() == k);
            assert(tail.len() == p.len() - k - 1);
        }
    }
}

/// The number of groups that the pieces `from..to` write on one side of
/// `::`, if they are well formed.
fn side_width_at(
    text: &Vec<char>,
    parts: &Vec<(usize, usize)>,
    from: usize,
    to: usize,
    v4_tail: bool,
) -> (width: Option<usize>)
    requires
        from < to <= parts.len() <= 9,
        forall|i: int| 0 <= i < parts.len() ==> (#[trigger] parts[i]).0 <= parts[i].1 <= text.len(),
    ensures
        width is Some <==> side_width(
            pieces(text@, parts@).subrange(from as int, to as int),
            v4_tail,
        ) is Some,
        width matches Some(w) ==> side_width(
            pieces(text@, parts@).subrange(from as int, to as int),
            v4_tail,
        ) == Some(w as int),
        width matches Some(w) ==> w <= 10,
{
    proof {
        let side = pieces(text@, parts@).subrange(from as int, to as int);
        assert(side[0].len() == parts[from as int].1 - parts[from as int].0);
    }
    if to - from == 1 && parts[from].0 == parts[from].1 {
        Some(0)
    } else {
        run_width_at(text, parts, from, to, v4_tail)
    }
}

/// Whether the pieces are those of an address whose `::` is piece `k`.
fn is_elided_at_piece(text: &Vec<char>, parts: &Vec<(usize, usize)>, k: usize) -> (yes: bool)
    requires
        parts.len() <= 9,
        forall|i: int| 0 <= i < parts.len() ==> (#[trigger] parts[i]).0 <= parts[i].1 <= text.len(),
    ensures
        yes == is_elided_at(pieces(text@, parts@), k as int),
{
    let n = parts.len();
    if n < 3 || k < 1 || k > n - 2 {
        return false;
    }
    proof {
        assert(pieces(text@, parts@)[k as int].len() == parts[k as int].1 - parts[k as int].0);
    }
    if parts[k].0 != parts[k].1 {
        return false;
    }
    let head = side_width_at(text, parts, 0, k, false);
    let tail = side_width_at(text, parts, k + 1, n, true);
    match (head, tail) {
        (Some(h), Some(t)) => h + t <= 7,
        _ => false,
    }
}

/// Whether the characters `text` are an IPv6 literal.
pub(crate) fn is_ipv6_chars(text: &Vec<char>) -> (yes: bool)
    ensures
        yes == is_ipv6_literal(text@),
{
    let len = text.len();
    let parts = split_ranges(text, 0, len, ':');
    let n = parts.len();
    let ghost p = pieces(text@, parts@);
    proof {
        assert(text@.subrange(0, len as int) == text@);
        assert(p == split(text@, ':'));
    }
    if n > 9 {
        proof {
            lemma_too_many_pieces(text@);
        }
        return false;
    }
    match first_empty_range(&parts) {
        None => {
            proof {
                assert(p.subrange(0, n as int) == p);
                assert forall|k: int| !is_elided_at(p, k) by {
                    if 0 <= k < n {
                        assert(p[k].len() == parts[k].1 - parts[k].0);
                    }
                }
            }
            match run_width_at(text, &parts, 0, n, true) {
                Some(w) => w == 8,
                None => false,
            }
        },
        Some(e) => {
            let k: usize = if e == 0 {
                1
            } else {
                e
            };
            proof {
                assert(p[e as int].len() == 0);
                assert forall|j: int| 0 <= j < e implies (#[trigger] p[j]).len() > 0 by {
                    assert(parts[j].0 != parts[j].1);
                }
                if is_group_run(p, true) {
                    lemma_run_pieces_nonempty(p, true);
                }
                assert forall|other: int| is_elided_at(p, other) implies other == k by {
                    lemma_elision_place(p, e as int, other);
                }
            }
            is_elided_at_piece(text, &parts, k)
        },
    }
}

/// Whether `text` is an IPv4 literal.
pub fn is_ipv4(text: &str) -> (yes: bool)
    ensures
        yes == is_ipv4_literal(text@),
{
    let chars = chars_of(text);
    proof {
        assert(chars@.subrange(0, chars.len() as int) == chars@);
    }
    is_ipv4_at(&chars, 0, chars.len())
}

/// Whether `text` is an IPv6 literal.
pub fn is_ipv6(text: &str) -> (yes: bool)
    ensures
        yes == is_ipv6_literal(text@),
{
    let chars = chars_of(text);
    is_ipv6_chars(&chars)
}

/// An IPv4 literal holds decimal digits and dots only.
pub proof fn lemma_ipv4_alphabet(s: Seq<char>, i: int)
    requires
        is_ipv4_literal(s),
        0 <= i < s.len(),
    ensures
        s[i] == '.' || is_dec_digit(s[i]),
{
    if s[i] != '.' {
        lemma_split_covers(s, '.', i);
        let p = split(s, '.');
        let (a, b): (int, int) = choose|a: int, b: int|
            0 <= a < p.len() && 0 <= b < p[a].len() && p[a][b] == s[i];
        assert(is_octet(p[a]));
    }
}

/// A piece of a run holds hexadecimal digits and dots only.
proof fn lemma_run_alphabet(p: Seq<Seq<char>>, v4_tail: bool, a: int, b: int)
    requires
        is_group_run(p, v4_tail),
        0 <= a < p.len(),
        0 <= b < p[a].len(),
    ensures
        p[a][b] == '.' || is_hex_digit(p[a][b]),
{
    if a < p.len() - 1 {
        assert(is_hex_group(p[a]));
    } else {
        assert(p[a] == p.last());
        if !is_hex_group(p[a]) {
            lemma_ipv4_alphabet(p[a], b);
        }
    }
}

/// An IPv6 literal holds hexadecimal digits, colons and dots only.
pub proof fn lemma_ipv6_alphabet(s: Seq<char>, i: int)
    requires
        is_ipv6_literal(s),
        0 <= i < s.len(),
    ensures
        s[i] == ':' || s[i] == '.' || is_hex_digit(s[i]),
{
    if s[i] != ':' {
        lemma_split_covers(s, ':', i);
        let p = split(s, ':');
        let (a, b): (int, int) = choose|a: int, b: int|
            0 <= a < p.len() && 0 <= b < p[a].len() && p[a][b] == s[i];
        if is_group_run(p, true) {
            lemma_run_alphabet(p, true, a, b);
        } else {
            let k = choose|k: int| is_elided_at(p, k);
            let head = p.subrange(0, k);
            let tail = p.subrange(k + 1, p.len() as int);
            if a < k {
                assert(head[a] == p[a]);
                lemma_run_alphabet(head, false, a, b);
            } else {
                assert(tail[a - k - 1] == p[a]);
                lemma_run_alphabet(tail, true, a - k - 1, b);
            }
        }
    }
}

} // verus!
