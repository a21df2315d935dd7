//! Address families, the record types that carry them, and the
//! classification of an address literal.

use crate::ip_literal::{
    is_elided_at, is_hex_digit, is_ipv4_at, is_ipv4_literal, is_ipv6_chars, is_ipv6_literal,
    lemma_ipv4_alphabet, lemma_ipv6_alphabet, run_width,
};
use crate::text::{appended, chars_of, lemma_split_without, split};
use vstd::prelude::*;

verus! {

/// The address family of an IP literal.
#[derive(Debug, Clone, Copy, PartialEq, Eq, Structural)]
pub enum IpType {
    V4,
    V6,
}

/// The DNS resource record type that carries an address.
#[derive(Debug, Clone, Copy, PartialEq, Eq, Structural)]
#[allow(clippy::upper_case_acronyms)]
pub enum RecordType {
    A,
    AAAA,
}

/// The record type that stores addresses of the given family.
pub open spec fn record_type_of(ip_type: IpType) -> RecordType {
    match ip_type {
        IpType::V4 => RecordType::A,
        IpType::V6 => RecordType::AAAA,
    }
}

impl RecordType {
    /// The record type as the provider spells it.
    pub open spec fn name(self) -> Seq<char> {
        match self {
            RecordType::A => "A"@,
            RecordType::AAAA => "AAAA"@,
        }
    }

    pub fn as_str(&self) -> (s: &'static str)
        ensures
            s@ == self.name(),
    {
        match self {
            RecordType::A => "A",
            RecordType::AAAA => "AAAA",
        }
    }
}

impl From<IpType> for RecordType {
    fn from(ip_type: IpType) -> (record_type: Self) {
        match ip_type {
            IpType::V4 => RecordType::A,
            IpType::V6 => RecordType::AAAA,
        }
    }
}

impl vstd::std_specs::convert::FromSpecImpl<IpType> for RecordType {
    open spec fn obeys_from_spec() -> bool {
        true
    }

    open spec fn from_spec(ip_type: IpType) -> Self {
        record_type_of(ip_type)
    }
}

/// The family of the address that `s` writes, if it writes one.
pub open spec fn classification(s: Seq<char>) -> Option<IpType> {
    if is_ipv4_literal(s) {
        Some(IpType::V4)
    } else if is_ipv6_literal(s) {
        Some(IpType::V6)
    } else {
        None
    }
}

/// What is reported for a text that writes no address.
pub open spec fn invalid_address_message(s: Seq<char>) -> Seq<char> {
    "Invalid IP address: "@ + s
}

/// Validates an address literal and tells its family.
pub fn validate_and_classify_ip(ip_str: &str) -> (result: Result<IpType, String>)
    ensures
        match result {
            Ok(ip_type) => classification(ip_str@) == Some(ip_type),
            Err(message) => classification(ip_str@) is None && message@ == invalid_address_message(
                ip_str@,
            ),
        },
{
    let text = chars_of(ip_str);
    proof {
        assert(text@.subrange(0, text.len() as int) == text@);
    }
    if is_ipv4_at(&text, 0, text.len()) {
        Ok(IpType::V4)
    } else if is_ipv6_chars(&text) {
        Ok(IpType::V6)
    } else {
        Err(appended("Invalid IP address: ", ip_str))
    }
}

/// No text is both an IPv4 and an IPv6 literal.
pub proof fn lemma_families_are_disjoint(s: Seq<char>)
    ensures
        !(is_ipv4_literal(s) && is_ipv6_literal(s)),
{
    if is_ipv4_literal(s) {
        assert forall|i: int| 0 <= i < s.len() implies s[i] != ':' by {
            lemma_ipv4_alphabet(s, i);
        }
        lemma_split_without(s, ':');
        let p = split(s, ':');
        assert(p.len() == 1);
        assert(run_width(p) <= 2);
        assert(forall|k: int| !is_elided_at(p, k));
    }
}

/// Every IPv4 literal is classified as IPv4 and maps to an A record, every
/// IPv6 literal as IPv6 and to an AAAA record; any other text has no
/// classification.
pub proof fn lemma_classification_by_family(s: Seq<char>)
    ensures
        is_ipv4_literal(s) <==> classification(s) == Some(IpType::V4),
        is_ipv6_literal(s) <==> classification(s) == Some(IpType::V6),
        !is_ipv4_literal(s) && !is_ipv6_literal(s) <==> classification(s) is None,
        record_type_of(IpType::V4) == RecordType::A,
        record_type_of(IpType::V6) == RecordType::AAAA,
{
    lemma_families_are_disjoint(s);
}

/// A text with any character that is not a hexadecimal digit, a dot or a
/// colon writes no address. A zone identifier behind an address, which
/// starts with `%`, is such a text.
pub proof fn lemma_foreign_character_is_refused(s: Seq<char>, i: int)
    requires
        0 <= i < s.len(),
        !is_hex_digit(s[i]),
        s[i] != '.',
        s[i] != ':',
    ensures
        classification(s) is None,
{
    if is_ipv4_literal(s) {
        lemma_ipv4_alphabet(s, i);
    }
    if is_ipv6_literal(s) {
        lemma_ipv6_alphabet(s, i);
    }
}

} // verus!
