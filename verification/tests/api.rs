use porkdyn::api::{
    find_record, is_success, qualified_record_name, record_matches, resolve,
    CreateUpdateDnsRecordRequest, DnsRecord, ProviderCall, ProviderConfig,
};
use porkdyn::credentials::Credentials;
use porkdyn::domain::Domain;
use porkdyn::ip_utils::RecordType;

fn record(id: &str, name: &str, record_type: &str, content: &str) -> DnsRecord {
    DnsRecord {
        id: id.to_string(),
        name: name.to_string(),
        record_type: record_type.to_string(),
        content: content.to_string(),
    }
}

#[test]
fn credentials_hand_back_what_they_were_given() {
    let credentials = Credentials::new("pk1_key".to_string(), "sk1_secret".to_string());
    assert_eq!(credentials.api_key(), "pk1_key");
    assert_eq!(credentials.secret_key(), "sk1_secret");
    let copy = credentials.clone();
    assert_eq!(copy.api_key(), "pk1_key");
    assert_eq!(copy.secret_key(), "sk1_secret");
}

#[test]
fn new_request_is_an_a_record_with_ten_minutes() {
    let request = CreateUpdateDnsRecordRequest::new("key", "secret", "api", "192.168.1.1");
    assert_eq!(request.apikey, "key");
    assert_eq!(request.secret_api_key, "secret");
    assert_eq!(request.name, "api");
    assert_eq!(request.record_type, "A");
    assert_eq!(request.content, "192.168.1.1");
    assert_eq!(request.ttl, 600);
}

#[test]
fn request_for_record_carries_type_and_ttl() {
    let credentials = Credentials::new("key".to_string(), "secret".to_string());
    let request = CreateUpdateDnsRecordRequest::for_record(
        &credentials,
        "api",
        RecordType::AAAA,
        "2001:db8::1",
        300,
    );
    assert_eq!(request.apikey, "key");
    assert_eq!(request.secret_api_key, "secret");
    assert_eq!(request.name, "api");
    assert_eq!(request.record_type, "AAAA");
    assert_eq!(request.content, "2001:db8::1");
    assert_eq!(request.ttl, 300);
}

#[test]
fn record_name_joins_host_and_zone() {
    assert_eq!(qualified_record_name("api", "example.com"), "api.example.com");
    assert_eq!(qualified_record_name("a.b", "example.com"), "a.b.example.com");
    assert_eq!(qualified_record_name("", "example.com"), "example.com");
}

#[test]
fn record_name_of_a_split_name_is_the_name() {
    for name in ["api.example.com", "a.b.example.com", "x.y.z"] {
        let domain = Domain::new(name).unwrap();
        assert_eq!(
            qualified_record_name(domain.subdomain(), domain.domain_name()),
            name
        );
    }
}

#[test]
fn record_matches_needs_name_and_type() {
    let a = record("1", "api.example.com", "A", "1.1.1.1");
    assert!(record_matches(&a, "api.example.com", RecordType::A));
    assert!(!record_matches(&a, "api.example.com", RecordType::AAAA));
    assert!(!record_matches(&a, "www.example.com", RecordType::A));
    assert!(!record_matches(&a, "API.example.com", RecordType::A));
    let cname = record("2", "api.example.com", "CNAME", "other.example.com");
    assert!(!record_matches(&cname, "api.example.com", RecordType::A));
    assert!(!record_matches(&cname, "api.example.com", RecordType::AAAA));
}

#[test]
fn find_record_takes_the_first_match() {
    let records = vec![
        record("1", "www.example.com", "A", "9.9.9.9"),
        record("2", "api.example.com", "AAAA", "::1"),
        record("3", "api.example.com", "A", "1.1.1.1"),
        record("4", "api.example.com", "A", "2.2.2.2"),
        record("5", "api.example.com", "AAAA", "::2"),
    ];
    let a = find_record(&records, "api.example.com", RecordType::A).unwrap();
    assert_eq!(a.id, "3");
    assert_eq!(a.content, "1.1.1.1");
    let aaaa = find_record(&records, "api.example.com", RecordType::AAAA).unwrap();
    assert_eq!(aaaa.id, "2");
    let www = find_record(&records, "www.example.com", RecordType::A).unwrap();
    assert_eq!(www.id, "1");
}

#[test]
fn find_record_finds_nothing_where_nothing_matches() {
    let records = vec![
        record("1", "www.example.com", "A", "9.9.9.9"),
        record("2", "api.example.com", "AAAA", "::1"),
    ];
    assert!(find_record(&records, "api.example.com", RecordType::A).is_none());
    assert!(find_record(&records, "www.example.com", RecordType::AAAA).is_none());
    assert!(find_record(&records, "example.com", RecordType::A).is_none());
    let none: Vec<DnsRecord> = Vec::new();
    assert!(find_record(&none, "api.example.com", RecordType::A).is_none());
}

#[test]
fn only_the_success_status_is_success() {
    assert!(is_success("SUCCESS"));
    assert!(!is_success("ERROR"));
    assert!(!is_success("success"));
    assert!(!is_success(""));
    assert!(!is_success("SUCCESS "));
}

#[test]
fn default_config_is_the_public_endpoint() {
    let config = ProviderConfig::default();
    assert_eq!(config.base_url, "https://api.porkbun.com/api/json/v3");
    assert_eq!(config.ttl, 600);
}

#[test]
fn urls_of_the_three_operations() {
    let config = ProviderConfig::default();
    assert_eq!(
        config.retrieve_url("example.com"),
        "https://api.porkbun.com/api/json/v3/dns/retrieve/example.com"
    );
    assert_eq!(
        config.create_url("example.com"),
        "https://api.porkbun.com/api/json/v3/dns/create/example.com"
    );
    assert_eq!(
        config.edit_url("example.com", "42"),
        "https://api.porkbun.com/api/json/v3/dns/edit/example.com/42"
    );
    let local = ProviderConfig {
        base_url: "http://localhost:8080".to_string(),
        ttl: 60,
    };
    assert_eq!(
        local.retrieve_url("example.org"),
        "http://localhost:8080/dns/retrieve/example.org"
    );
}

#[test]
fn provider_call_knows_its_url_and_body() {
    let config = ProviderConfig {
        base_url: "http://localhost".to_string(),
        ttl: 120,
    };
    let credentials = Credentials::new("key".to_string(), "secret".to_string());

    let lookup = ProviderCall::Lookup {
        zone: "example.com".to_string(),
    };
    assert_eq!(lookup.url(&config), "http://localhost/dns/retrieve/example.com");
    assert!(lookup.record_request(&credentials, &config).is_none());

    let create = ProviderCall::Create {
        zone: "example.com".to_string(),
        name: "api".to_string(),
        kind: RecordType::AAAA,
        address: "::1".to_string(),
    };
    assert_eq!(create.url(&config), "http://localhost/dns/create/example.com");
    let body = create.record_request(&credentials, &config).unwrap();
    assert_eq!(body.apikey, "key");
    assert_eq!(body.secret_api_key, "secret");
    assert_eq!(body.name, "api");
    assert_eq!(body.record_type, "AAAA");
    assert_eq!(body.content, "::1");
    assert_eq!(body.ttl, 120);

    let update = ProviderCall::Update {
        zone: "example.com".to_string(),
        id: "42".to_string(),
        name: "api".to_string(),
        kind: RecordType::A,
        address: "2.2.2.2".to_string(),
    };
    assert_eq!(update.url(&config), "http://localhost/dns/edit/example.com/42");
    let body = update.record_request(&credentials, &config).unwrap();
    assert_eq!(body.name, "api");
    assert_eq!(body.record_type, "A");
    assert_eq!(body.content, "2.2.2.2");
    assert_eq!(body.ttl, 120);
}

#[test]
fn resolve_looks_for_the_host_in_its_zone() {
    let records = vec![
        record("1", "example.com", "A", "9.9.9.9"),
        record("2", "api.example.com", "CNAME", "elsewhere.example.net"),
        record("3", "api.example.com", "A", "1.1.1.1"),
        record("4", "api.example.com", "AAAA", "::1"),
        record("5", "api.example.com", "A", "2.2.2.2"),
    ];
    let a = resolve(&records, "example.com", "api", RecordType::A).unwrap();
    assert_eq!(a.id, "3");
    let aaaa = resolve(&records, "example.com", "api", RecordType::AAAA).unwrap();
    assert_eq!(aaaa.id, "4");
    let apex = resolve(&records, "example.com", "", RecordType::A).unwrap();
    assert_eq!(apex.id, "1");
    assert!(resolve(&records, "example.com", "www", RecordType::A).is_none());
    assert!(resolve(&records, "example.org", "api", RecordType::A).is_none());
    assert!(resolve(&records, "example.com", "", RecordType::AAAA).is_none());
}

#[test]
fn new_request_takes_its_type_from_the_address() {
    let v6 = CreateUpdateDnsRecordRequest::new("key", "secret", "api", "2001:db8::1");
    assert_eq!(v6.record_type, "AAAA");
    assert_eq!(v6.apikey, "key");
    assert_eq!(v6.secret_api_key, "secret");
    assert_eq!(v6.name, "api");
    assert_eq!(v6.content, "2001:db8::1");
    assert_eq!(v6.ttl, 600);
    let mapped = CreateUpdateDnsRecordRequest::new("key", "secret", "api", "::ffff:1.2.3.4");
    assert_eq!(mapped.record_type, "AAAA");
    let v4 = CreateUpdateDnsRecordRequest::new("key", "secret", "api", "10.0.0.1");
    assert_eq!(v4.record_type, "A");
    let none = CreateUpdateDnsRecordRequest::new("key", "secret", "api", "not_an_ip");
    assert_eq!(none.record_type, "A");
    assert_eq!(none.content, "not_an_ip");
    assert_eq!(none.ttl, 600);
}
