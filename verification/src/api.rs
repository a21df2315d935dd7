//! What the provider is asked and what it answers: the record it stores,
//! the request that creates or updates one, the addresses of its
//! operations, and the choice of the record that a name already has.

use crate::credentials::{Credentials, CredentialsView};
use crate::domain::{host_of, is_qualified_name, lemma_split_reconstructs, zone_of};
use crate::ip_utils::{classification, record_type_of, validate_and_classify_ip, RecordType};
use crate::text::{appended, same_text};
use vstd::prelude::*;

verus! {

/// A record as the provider reports it.
#[derive(Debug)]
pub struct DnsRecord {
    pub id: String,
    pub name: String,
    pub record_type: String,
    pub content: String,
}

/// The texts of a `DnsRecord`.
pub struct DnsRecordView {
    pub id: Seq<char>,
    pub name: Seq<char>,
    pub record_type: Seq<char>,
    pub content: Seq<char>,
}

impl View for DnsRecord {
    type V = DnsRecordView;

    open spec fn view(&self) -> DnsRecordView {
        DnsRecordView {
            id: self.id@,
            name: self.name@,
            record_type: self.record_type@,
            content: self.content@,
        }
    }
}

impl Clone for DnsRecord {
    fn clone(&self) -> (copy: Self)
        ensures
            copy@ == self@,
    {
        DnsRecord {
            id: self.id.clone(),
            name: self.name.clone(),
            record_type: self.record_type.clone(),
            content: self.content.clone(),
        }
    }
}

/// The views of a list of records.
pub open spec fn record_views(records: Seq<DnsRecord>) -> Seq<DnsRecordView> {
    Seq::new(records.len(), |i: int| records[i]@)
}

/// The name under which the provider stores the record of `host` in
/// `zone`: `host.zone`, or the zone alone for an empty host.
pub open spec fn record_name(host: Seq<char>, zone: Seq<char>) -> Seq<char> {
    if host.len() == 0 {
        zone
    } else {
        host + seq!['.'] + zone
    }
}

pub fn qualified_record_name(host: &str, zone: &str) -> (name: String)
    ensures
        name@ == record_name(host@, zone@),
{
    if host.is_empty() {
        zone.to_owned()
    } else {
        let mut name = host.to_owned();
        proof {
            reveal_strlit(".");
            assert("."@ == seq!['.']);
        }
        name.append(".");
        name.append(zone);
        name
    }
}

/// The record name built from the host and zone of a qualified name is
/// that name.
pub proof fn lemma_record_name_of_split(name: Seq<char>)
    requires
        is_qualified_name(name),
    ensures
        record_name(host_of(name), zone_of(name)) == name,
{
    lemma_split_reconstructs(name);
}

/// A record that stands for `name` with the wanted type.
pub open spec fn is_match(record: DnsRecordView, name: Seq<char>, kind: RecordType) -> bool {
    record.name == name && record.record_type == kind.name()
}

/// The position of the first record that matches, if any does.
pub open spec fn first_match(records: Seq<DnsRecordView>, name: Seq<char>, kind: RecordType)
    -> Option<int>
    decreases records.len(),
{
    if records.len() == 0 {
        None
    } else {
        match first_match(records.drop_last(), name, kind) {
            Some(i) => Some(i),
            None => if is_match(records.last(), name, kind) {
                Some(records.len() - 1)
            } else {
                None
            },
        }
    }
}

/// `first_match` gives a matching position before which nothing matches,
/// and gives none only where nothing matches.
pub proof fn lemma_first_match(records: Seq<DnsRecordView>, name: Seq<char>, kind: RecordType)
    ensures
        match first_match(records, name, kind) {
            Some(i) => {
                &&& 0 <= i < records.len()
                &&& is_match(records[i], name, kind)
                &&& forall|j: int| 0 <= j < i ==> !is_match(#[trigger] records[j], name, kind)
            },
            None => forall|j: int|
                0 <= j < records.len() ==> !is_match(#[trigger] records[j], name, kind),
        },
    decreases records.len(),
{
    if records.len() > 0 {
        let front = records.drop_last();
        lemma_first_match(front, name, kind);
        match first_match(front, name, kind) {
            Some(i) => {
                assert(front[i] == records[i]);
                assert forall|j: int| 0 <= j < i implies !is_match(
                    #[trigger] records[j],
                    name,
                    kind,
                ) by {
                    assert(front[j] == records[j]);
                }
            },
            None => {
                assert forall|j: int| 0 <= j < records.len() - 1 implies !is_match(
                    #[trigger] records[j],
                    name,
                    kind,
                ) by {
                    assert(front[j] == records[j]);
                }
            },
        }
    }
}

/// Whether the record stands for `name` with the wanted type.
pub fn record_matches(record: &DnsRecord, name: &str, kind: RecordType) -> (yes: bool)
    ensures
        yes == is_match(record@, name@, kind),
{
    same_text(record.name.as_str(), name) && same_text(record.record_type.as_str(), kind.as_str())
}

/// The first record that stands for `name` with the wanted type.
pub fn find_record<'a>(records: &'a Vec<DnsRecord>, name: &str, kind: RecordType) -> (found:
    Option<&'a DnsRecord>)
    ensures
        match first_match(record_views(records@), name@, kind) {
            Some(i) => found == Some(&records[i]),
            None => found is None,
        },
{
    let mut i: usize = 0;
    while i < records.len()
        invariant
            i <= records.len(),
            forall|j: int| 0 <= j < i ==> !is_match(#[trigger] records[j]@, name@, kind),
        decreases records.len() - i,
    {
        if record_matches(&records[i], name, kind) {
            proof {
                let views = record_views(records@);
                lemma_first_match(views, name@, kind);
                assert(is_match(views[i as int], name@, kind));
                match first_match(views, name@, kind) {
                    Some(k) => {
                        if k < i {
                            assert(!is_match(records[k]@, name@, kind));
                            assert(views[k] == records[k]@);
                        }
                    },
                    None => {},
                }
            }
            return Some(&records[i]);
        }
        i += 1;
    }
    proof {
        let views = record_views(records@);
        lemma_first_match(views, name@, kind);
        match first_match(views, name@, kind) {
            Some(k) => {
                assert(!is_match(records[k]@, name@, kind));
                assert(views[k] == records[k]@);
            },
            None => {},
        }
    }
    None
}

/// The record that `host` has in `zone` with the wanted type: the first
/// of the zone's records that is stored under the name of the host and has
/// that type.
pub open spec fn resolved_record(
    records: Seq<DnsRecordView>,
    zone: Seq<char>,
    host: Seq<char>,
    kind: RecordType,
) -> Option<DnsRecordView> {
    match first_match(records, record_name(host, zone), kind) {
        Some(i) => Some(records[i]),
        None => None,
    }
}

/// The view of a record that may be absent.
pub open spec fn existing_view(existing: Option<&DnsRecord>) -> Option<DnsRecordView> {
    match existing {
        Some(record) => Some(record@),
        None => None,
    }
}

/// Picks from the zone's records the one that `host` has with the wanted
/// type, if there is one.
pub fn resolve<'a>(records: &'a Vec<DnsRecord>, zone: &str, host: &str, kind: RecordType) -> (found:
    Option<&'a DnsRecord>)
    ensures
        existing_view(found) == resolved_record(record_views(records@), zone@, host@, kind),
{
    let name = qualified_record_name(host, zone);
    let found = find_record(records, name.as_str(), kind);
    proof {
        let views = record_views(records@);
        lemma_first_match(views, name@, kind);
        match first_match(views, name@, kind) {
            Some(i) => {
                assert(views[i] == records[i]@);
            },
            None => {},
        }
    }
    found
}

/// Whether the provider reported success.
pub open spec fn is_success_status(status: Seq<char>) -> bool {
    status == "SUCCESS"@
}

pub fn is_success(status: &str) -> (yes: bool)
    ensures
        yes == is_success_status(status@),
{
    same_text(status, "SUCCESS")
}

/// Where the provider is reached and how long its records may be cached.
#[derive(Debug)]
pub struct ProviderConfig {
    pub base_url: String,
    pub ttl: u64,
}

impl Default for ProviderConfig {
    fn default() -> (config: Self)
        ensures
            config.base_url@ == "https://api.porkbun.com/api/json/v3"@,
            config.ttl == 600,
    {
        ProviderConfig { base_url: "https://api.porkbun.com/api/json/v3".to_owned(), ttl: 600 }
    }
}

impl ProviderConfig {
    /// The address that lists the records of `zone`.
    pub fn retrieve_url(&self, zone: &str) -> (url: String)
        ensures
            url@ == self.base_url@ + "/dns/retrieve/"@ + zone@,
    {
        let mut url = appended(self.base_url.as_str(), "/dns/retrieve/");
        url.append(zone);
        url
    }

    /// The address that creates a record in `zone`.
    pub fn create_url(&self, zone: &str) -> (url: String)
        ensures
            url@ == self.base_url@ + "/dns/create/"@ + zone@,
    {
        let mut url = appended(self.base_url.as_str(), "/dns/create/");
        url.append(zone);
        url
    }

    /// The address that edits the record `record_id` of `zone`.
    pub fn edit_url(&self, zone: &str, record_id: &str) -> (url: String)
        ensures
            url@ == self.base_url@ + "/dns/edit/"@ + zone@ + "/"@ + record_id@,
    {
        let mut url = appended(self.base_url.as_str(), "/dns/edit/");
        url.append(zone);
        url.append("/");
        url.append(record_id);
        url
    }
}

/// The body of a request that creates or updates a record.
#[derive(Debug)]
pub struct CreateUpdateDnsRecordRequest {
    pub apikey: String,
    pub secret_api_key: String,
    pub name: String,
    pub record_type: String,
    pub content: String,
    pub ttl: u64,
}

impl CreateUpdateDnsRecordRequest {
    /// The request carries exactly these values.
    pub open spec fn describes(
        self,
        credentials: CredentialsView,
        name: Seq<char>,
        kind: RecordType,
        address: Seq<char>,
        ttl: u64,
    ) -> bool {
        &&& self.apikey@ == credentials.api_key
        &&& self.secret_api_key@ == credentials.secret_key
        &&& self.name@ == name
        &&& self.record_type@ == kind.name()
        &&& self.content@ == address
        &&& self.ttl == ttl
    }

    /// A request that may be cached for ten minutes. The record type
    /// follows the address: A for an IPv4 address, AAAA for an IPv6
    /// address, and A for a text that writes no address.
    pub fn new(api_key: &str, secret_api_key: &str, subdomain: &str, ip: &str) -> (request: Self)
        ensures
            request.describes(
                CredentialsView { api_key: api_key@, secret_key: secret_api_key@ },
                subdomain@,
                match classification(ip@) {
                    Some(ip_type) => record_type_of(ip_type),
                    None => RecordType::A,
                },
                ip@,
                600,
            ),
    {
        let kind = match validate_and_classify_ip(ip) {
            Ok(ip_type) => RecordType::from(ip_type),
            Err(_) => RecordType::A,
        };
        CreateUpdateDnsRecordRequest {
            apikey: api_key.to_owned(),
            secret_api_key: secret_api_key.to_owned(),
            name: subdomain.to_owned(),
            record_type: kind.as_str().to_owned(),
            content: ip.to_owned(),
            ttl: 600,
        }
    }

    /// A request for a record of the given type.
    pub fn for_record(
        credentials: &Credentials,
        subdomain: &str,
        kind: RecordType,
        address: &str,
        ttl: u64,
    ) -> (request: Self)
        ensures
            request.describes(credentials@, subdomain@, kind, address@, ttl),
    {
        CreateUpdateDnsRecordRequest {
            apikey: credentials.api_key().to_owned(),
            secret_api_key: credentials.secret_key().to_owned(),
            name: subdomain.to_owned(),
            record_type: kind.as_str().to_owned(),
            content: address.to_owned(),
            ttl,
        }
    }
}

/// A call that the caller is to make to the provider.
#[derive(Debug)]
pub enum ProviderCall {
    /// List the records of the zone.
    Lookup { zone: String },
    /// Create a record for `name` in the zone.
    Create { zone: String, name: String, kind: RecordType, address: String },
    /// Give the record `id` of the zone a new address.
    Update { zone: String, id: String, name: String, kind: RecordType, address: String },
}

pub enum ProviderCallView {
    Lookup { zone: Seq<char> },
    Create { zone: Seq<char>, name: Seq<char>, kind: RecordType, address: Seq<char> },
    Update { zone: Seq<char>, id: Seq<char>, name: Seq<char>, kind: RecordType, address: Seq<char> },
}

impl View for ProviderCall {
    type V = ProviderCallView;

    open spec fn view(&self) -> ProviderCallView {
        match self {
            ProviderCall::Lookup { zone } => ProviderCallView::Lookup { zone: zone@ },
            ProviderCall::Create { zone, name, kind, address } => ProviderCallView::Create {
                zone: zone@,
                name: name@,
                kind: *kind,
                address: address@,
            },
            ProviderCall::Update { zone, id, name, kind, address } => ProviderCallView::Update {
                zone: zone@,
                id: id@,
                name: name@,
                kind: *kind,
                address: address@,
            },
        }
    }
}

impl ProviderCallView {
    /// The address of the operation below the provider's base address.
    pub open spec fn url(self, base: Seq<char>) -> Seq<char> {
        match self {
            ProviderCallView::Lookup { zone } => base + "/dns/retrieve/"@ + zone,
            ProviderCallView::Create { zone, .. } => base + "/dns/create/"@ + zone,
            ProviderCallView::Update { zone, id, .. } => base + "/dns/edit/"@ + zone + "/"@ + id,
        }
    }
}

impl ProviderCall {
    /// The address to send the call to.
    pub fn url(&self, config: &ProviderConfig) -> (url: String)
        ensures
            url@ == self@.url(config.base_url@),
    {
        match self {
            ProviderCall::Lookup { zone } => config.retrieve_url(zone.as_str()),
            ProviderCall::Create { zone, .. } => config.create_url(zone.as_str()),
            ProviderCall::Update { zone, id, .. } => config.edit_url(zone.as_str(), id.as_str()),
        }
    }

    /// The body to send with a create or an update; a lookup sends the
    /// credentials alone.
    pub fn record_request(&self, credentials: &Credentials, config: &ProviderConfig) -> (request:
        Option<CreateUpdateDnsRecordRequest>)
        ensures
            match self@ {
                ProviderCallView::Lookup { .. } => request is None,
                ProviderCallView::Create { name, kind, address, .. } => request is Some
                    && request->0.describes(credentials@, name, kind, address, config.ttl),
                ProviderCallView::Update { name, kind, address, .. } => request is Some
                    && request->0.describes(credentials@, name, kind, address, config.ttl),
            },
    {
        match self {
            ProviderCall::Lookup { .. } => None,
            ProviderCall::Create { name, kind, address, .. } => Some(
                CreateUpdateDnsRecordRequest::for_record(
                    credentials,
                    name.as_str(),
                    *kind,
                    address.as_str(),
                    config.ttl,
                ),
            ),
            ProviderCall::Update { name, kind, address, .. } => Some(
                CreateUpdateDnsRecordRequest::for_record(
                    credentials,
                    name.as_str(),
                    *kind,
                    address.as_str(),
                    config.ttl,
                ),
            ),
        }
    }
}

} // verus!
