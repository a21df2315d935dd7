//! A qualified domain name, split into the zone that holds its records and
//! the host inside that zone.

use crate::error::DomainError;
use crate::text::{
    chars_of, count, is_tight, join, lemma_join_nonempty, lemma_join_split,
    lemma_join_tiles_prefix, lemma_no_empty_piece, lemma_split_len, pieces, split, split_ranges,
};
use vstd::prelude::*;

verus! {

/// The dot-separated labels of a name.
pub open spec fn labels(name: Seq<char>) -> Seq<Seq<char>> {
    split(name, '.')
}

/// A name that can be split: at least three labels, none of them empty.
pub open spec fn is_qualified_name(name: Seq<char>) -> bool {
    &&& labels(name).len() >= 3
    &&& forall|i: int| 0 <= i < labels(name).len() ==> (#[trigger] labels(name)[i]).len() > 0
}

/// The zone of a qualified name: its last two labels.
pub open spec fn zone_of(name: Seq<char>) -> Seq<char> {
    let l = labels(name);
    l[l.len() - 2] + seq!['.'] + l[l.len() - 1]
}

/// The host of a qualified name: every label before the zone.
pub open spec fn host_of(name: Seq<char>) -> Seq<char> {
    let l = labels(name);
    join(l.subrange(0, l.len() - 2), '.')
}

/// The reason given when a name is refused.
pub open spec fn refusal_reason(name: Seq<char>) -> Seq<char> {
    if labels(name).len() < 3 {
        "Domain must have at least 3 parts (e.g., sub.example.com)"@
    } else {
        "Domain contains empty parts"@
    }
}

/// The three texts that a `Domain` holds.
pub struct DomainView {
    pub domain_name: Seq<char>,
    pub subdomain: Seq<char>,
    pub qualified_name: Seq<char>,
}

#[derive(Debug)]
pub struct Domain {
    domain_name: String,
    subdomain: String,
    qualified_name: String,
}

impl View for Domain {
    type V = DomainView;

    closed spec fn view(&self) -> DomainView {
        DomainView {
            domain_name: self.domain_name@,
            subdomain: self.subdomain@,
            qualified_name: self.qualified_name@,
        }
    }
}

impl Clone for Domain {
    fn clone(&self) -> (copy: Self)
        ensures
            copy@ == self@,
    {
        proof {
            use_type_invariant(self);
        }
        Domain {
            domain_name: self.domain_name.clone(),
            subdomain: self.subdomain.clone(),
            qualified_name: self.qualified_name.clone(),
        }
    }
}

/// What holds of every `Domain`: its zone and host are those of its
/// qualified name, which has the required shape.
pub open spec fn splits_correctly(d: DomainView) -> bool {
    &&& is_qualified_name(d.qualified_name)
    &&& d.domain_name == zone_of(d.qualified_name)
    &&& d.subdomain == host_of(d.qualified_name)
}

/// Whether some range is empty.
fn has_empty_range(ranges: &Vec<(usize, usize)>) -> (found: bool)
    ensures
        found == exists|i: int| 0 <= i < ranges.len() && (#[trigger] ranges[i]).0 == ranges[i].1,
{
    let mut i: usize = 0;
    while i < ranges.len()
        invariant
            i <= ranges.len(),
            forall|j: int| 0 <= j < i ==> (#[trigger] ranges[j]).0 != ranges[j].1,
        decreases ranges.len() - i,
    {
        if ranges[i].0 == ranges[i].1 {
            return true;
        }
        i += 1;
    }
    false
}

impl Domain {
    #[verifier::type_invariant]
    spec fn inv(self) -> bool {
        splits_correctly(self@)
    }

    /// Splits a qualified name into zone and host.
    ///
    /// Succeeds exactly on names with at least three labels and no empty
    /// label; otherwise the error says which of the two was wrong.
    pub fn new(qualified_name: &str) -> (result: Result<Self, DomainError>)
        ensures
            result is Ok <==> is_qualified_name(qualified_name@),
            result matches Ok(d) ==> {
                &&& d@.qualified_name == qualified_name@
                &&& d@.domain_name == zone_of(qualified_name@)
                &&& d@.subdomain == host_of(qualified_name@)
            },
            result matches Err(e) ==> e.reason() == refusal_reason(qualified_name@),
    {
        let text = chars_of(qualified_name);
        let len = text.len();
        let parts = split_ranges(&text, 0, len, '.');
        let n = parts.len();
        proof {
            assert(text@.subrange(0, len as int) == text@);
            assert(pieces(text@, parts@) == labels(qualified_name@));
            assert(forall|i: int|
                0 <= i < n ==> (#[trigger] labels(qualified_name@)[i]).len() == parts[i].1
                    - parts[i].0);
        }
        if n < 3 {
            return Err(
                DomainError::DomainValidationError(
                    "Domain must have at least 3 parts (e.g., sub.example.com)".to_owned(),
                ),
            );
        }
        if has_empty_range(&parts) {
            proof {
                let i = choose|i: int| 0 <= i < n && (#[trigger] parts[i]).0 == parts[i].1;
                assert(labels(qualified_name@)[i].len() == 0);
            }
            return Err(
                DomainError::DomainValidationError("Domain contains empty parts".to_owned()),
            );
        }
        let host_end = parts[n - 3].1;
        let zone_start = parts[n - 2].0;
        let zone = qualified_name.substring_char(zone_start, len).to_owned();
        let host = qualified_name.substring_char(0, host_end).to_owned();
        proof {
            let l = labels(qualified_name@);
            assert forall|i: int| 0 <= i < l.len() implies (#[trigger] l[i]).len() > 0 by {
                assert(parts[i].0 != parts[i].1);
            }
            lemma_join_tiles_prefix(text@, 0, len as int, '.', parts@, n - 2);
            assert(parts[n - 1].0 == parts[n - 2].1 + 1 && text@[parts[n - 2].1 as int] == '.');
            assert(text@.subrange(zone_start as int, len as int) == l[n - 2] + seq!['.'] + l[n
                - 1]);
        }
        Ok(Domain { domain_name: zone, subdomain: host, qualified_name: qualified_name.to_owned() })
    }

    /// The zone, such as `example.org`.
    pub fn domain_name(&self) -> (s: &str)
        ensures
            s@ == self@.domain_name,
            splits_correctly(self@),
    {
        proof {
            use_type_invariant(self);
        }
        self.domain_name.as_str()
    }

    /// The host inside the zone, such as `api`.
    pub fn subdomain(&self) -> (s: &str)
        ensures
            s@ == self@.subdomain,
            splits_correctly(self@),
    {
        proof {
            use_type_invariant(self);
        }
        self.subdomain.as_str()
    }

    /// The whole name, such as `api.example.org`.
    pub fn qualified_name(&self) -> (s: &str)
        ensures
            s@ == self@.qualified_name,
            splits_correctly(self@),
    {
        proof {
            use_type_invariant(self);
        }
        self.qualified_name.as_str()
    }
}

/// A qualified name is its host, a dot, and its zone: splitting loses
/// nothing, and the zone is a suffix of the name.
pub proof fn lemma_split_reconstructs(name: Seq<char>)
    requires
        is_qualified_name(name),
    ensures
        host_of(name) + seq!['.'] + zone_of(name) == name,
        host_of(name).len() > 0,
{
    let l = labels(name);
    let n = l.len() as int;
    lemma_join_split(name, '.');
    let front = l.drop_last();
    assert(front.drop_last() == l.subrange(0, n - 2));
    assert(front.last() == l[n - 2]);
    assert(join(l, '.') == join(front, '.') + seq!['.'] + l[n - 1]);
    assert(join(front, '.') == host_of(name) + seq!['.'] + l[n - 2]);
    assert(host_of(name) + seq!['.'] + zone_of(name) == join(l, '.'));
    lemma_join_nonempty(l.subrange(0, n - 2), '.');
}

/// A name is qualified exactly where it holds at least two dots, none of
/// them at either end and no two in a row.
pub proof fn lemma_qualified_name_by_characters(name: Seq<char>)
    ensures
        is_qualified_name(name) <==> count(name, '.') >= 2 && is_tight(name, '.'),
{
    lemma_split_len(name, '.');
    lemma_no_empty_piece(name, '.');
}

} // verus!
