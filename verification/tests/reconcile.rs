use porkdyn::api::DnsRecord;
use porkdyn::ip_utils::RecordType;
use porkdyn::reconcile::{aggregate, aggregate_messages, expected_outcome, reconcile, Action, Outcome};

fn record(id: &str, name: &str, record_type: &str, content: &str) -> DnsRecord {
    DnsRecord {
        id: id.to_string(),
        name: name.to_string(),
        record_type: record_type.to_string(),
        content: content.to_string(),
    }
}

#[test]
fn no_record_means_create() {
    match reconcile(None, "192.168.1.1", RecordType::A) {
        Action::Create { kind, address } => {
            assert_eq!(kind, RecordType::A);
            assert_eq!(address, "192.168.1.1");
        }
        other => panic!("{:?}", other),
    }
    match reconcile(None, "2001:db8::1", RecordType::AAAA) {
        Action::Create { kind, address } => {
            assert_eq!(kind, RecordType::AAAA);
            assert_eq!(address, "2001:db8::1");
        }
        other => panic!("{:?}", other),
    }
}

#[test]
fn same_address_means_nothing_to_do() {
    let existing = record("42", "api.example.com", "A", "1.1.1.1");
    match reconcile(Some(&existing), "1.1.1.1", RecordType::A) {
        Action::NoOp { record } => {
            assert_eq!(record.id, "42");
            assert_eq!(record.name, "api.example.com");
            assert_eq!(record.record_type, "A");
            assert_eq!(record.content, "1.1.1.1");
        }
        other => panic!("{:?}", other),
    }
}

#[test]
fn other_address_means_update() {
    let existing = record("42", "api.example.com", "A", "1.1.1.1");
    match reconcile(Some(&existing), "2.2.2.2", RecordType::A) {
        Action::Update { id, address, kind } => {
            assert_eq!(id, "42");
            assert_eq!(address, "2.2.2.2");
            assert_eq!(kind, RecordType::A);
        }
        other => panic!("{:?}", other),
    }
}

#[test]
fn addresses_are_compared_as_text() {
    let existing = record("7", "api.example.com", "AAAA", "2001:db8::1");
    assert!(matches!(
        reconcile(Some(&existing), "2001:db8::1", RecordType::AAAA),
        Action::NoOp { .. }
    ));
    assert!(matches!(
        reconcile(Some(&existing), "2001:DB8::1", RecordType::AAAA),
        Action::Update { .. }
    ));
    assert!(matches!(
        reconcile(Some(&existing), "2001:db8:0::1", RecordType::AAAA),
        Action::Update { .. }
    ));
}

#[test]
fn reconciling_again_after_the_action_took_effect_finds_nothing_to_do() {
    let before = record("42", "api.example.com", "A", "1.1.1.1");
    let (id, address) = match reconcile(Some(&before), "2.2.2.2", RecordType::A) {
        Action::Update { id, address, .. } => (id, address),
        other => panic!("{:?}", other),
    };
    let after = record(&id, "api.example.com", "A", &address);
    assert!(matches!(
        reconcile(Some(&after), "2.2.2.2", RecordType::A),
        Action::NoOp { .. }
    ));

    let address = match reconcile(None, "3.3.3.3", RecordType::A) {
        Action::Create { address, .. } => address,
        other => panic!("{:?}", other),
    };
    let created = record("1001", "api.example.com", "A", &address);
    assert!(matches!(
        reconcile(Some(&created), "3.3.3.3", RecordType::A),
        Action::NoOp { .. }
    ));
}

#[test]
fn expected_outcome_follows_the_decision() {
    let existing = record("42", "api.example.com", "A", "1.1.1.1");
    match expected_outcome(None, "1.1.1.1", RecordType::A, "api") {
        Outcome::Created { name, kind } => {
            assert_eq!(name, "api");
            assert_eq!(kind, RecordType::A);
        }
        other => panic!("{:?}", other),
    }
    match expected_outcome(Some(&existing), "1.1.1.1", RecordType::A, "api") {
        Outcome::UpToDate { name, kind } => {
            assert_eq!(name, "api.example.com");
            assert_eq!(kind, RecordType::A);
        }
        other => panic!("{:?}", other),
    }
    match expected_outcome(Some(&existing), "2.2.2.2", RecordType::A, "api") {
        Outcome::Updated { name, kind } => {
            assert_eq!(name, "api.example.com");
            assert_eq!(kind, RecordType::A);
        }
        other => panic!("{:?}", other),
    }
}

#[test]
fn outcome_messages_quote_the_name() {
    let up_to_date = Outcome::UpToDate {
        name: "api.example.com".to_string(),
        kind: RecordType::A,
    };
    assert_eq!(
        up_to_date.message(),
        "DNS record \"api.example.com\" is already up to date"
    );
    let updated = Outcome::Updated {
        name: "api.example.com".to_string(),
        kind: RecordType::A,
    };
    assert_eq!(
        updated.message(),
        "DNS record '\"api.example.com\"' updated successfully"
    );
    let created = Outcome::Created {
        name: "api".to_string(),
        kind: RecordType::AAAA,
    };
    assert_eq!(
        created.message(),
        "DNS record for subdomain '\"api\"' successfully created"
    );
    assert_eq!(created.display_name(), "api");
    assert_eq!(created.kind(), RecordType::AAAA);
    assert_eq!(updated.display_name(), "api.example.com");
    assert_eq!(up_to_date.kind(), RecordType::A);
}

#[test]
fn outcome_messages_escape_what_cannot_stand_in_quotes() {
    let odd = Outcome::Created {
        name: "a\"b\\c\n".to_string(),
        kind: RecordType::A,
    };
    assert_eq!(
        odd.message(),
        "DNS record for subdomain '\"a\\\"b\\\\c\\n\"' successfully created"
    );
}

#[test]
fn message_around_uses_the_given_text_as_it_is() {
    let created = Outcome::Created {
        name: "ignored".to_string(),
        kind: RecordType::A,
    };
    assert_eq!(
        created.message_around("<api>"),
        "DNS record for subdomain '<api>' successfully created"
    );
    let updated = Outcome::Updated {
        name: "ignored".to_string(),
        kind: RecordType::A,
    };
    assert_eq!(
        updated.message_around("<api>"),
        "DNS record '<api>' updated successfully"
    );
    let up_to_date = Outcome::UpToDate {
        name: "ignored".to_string(),
        kind: RecordType::A,
    };
    assert_eq!(
        up_to_date.message_around("<api>"),
        "DNS record <api> is already up to date"
    );
}

#[test]
fn aggregate_joins_messages_in_order() {
    let outcomes = vec![
        Outcome::Created {
            name: "api".to_string(),
            kind: RecordType::A,
        },
        Outcome::UpToDate {
            name: "api.example.com".to_string(),
            kind: RecordType::AAAA,
        },
    ];
    assert_eq!(
        aggregate(&outcomes),
        "DNS record for subdomain '\"api\"' successfully created; \
         DNS record \"api.example.com\" is already up to date"
    );
    let one = vec![Outcome::Updated {
        name: "api.example.com".to_string(),
        kind: RecordType::A,
    }];
    assert_eq!(
        aggregate(&one),
        "DNS record '\"api.example.com\"' updated successfully"
    );
    let none: Vec<Outcome> = Vec::new();
    assert_eq!(aggregate(&none), "");
}

#[test]
fn aggregate_messages_separates_with_semicolon_and_space() {
    assert_eq!(aggregate_messages(&vec![]), "");
    assert_eq!(aggregate_messages(&vec!["one".to_string()]), "one");
    assert_eq!(
        aggregate_messages(&vec!["one".to_string(), "two".to_string(), "three".to_string()]),
        "one; two; three"
    );
    assert_eq!(
        aggregate_messages(&vec!["".to_string(), "".to_string()]),
        "; "
    );
}
