use porkdyn::domain::Domain;
use porkdyn::error::DomainError;

#[test]
fn test_new_valid_domain() {
    let qualified_name_input = "api.example.com";
    let domain = Domain::new(qualified_name_input);
    assert!(
        domain.is_ok(),
        "Domain: {} should be valid",
        qualified_name_input
    );
    let domain = domain.unwrap();
    assert_eq!(domain.domain_name(), "example.com");
    assert_eq!(domain.subdomain(), "api");
    assert_eq!(domain.qualified_name(), "api.example.com");
}

#[test]
fn test_valid_domains() {
    let valid_domains = [
        "api.example.com",
        "very-very-very-very-very-very-very-long-subdomain.example.com",
    ];

    for domain in valid_domains {
        let result = Domain::new(domain);
        assert!(result.is_ok(), "Domain: {}", domain);
        let domain = result.unwrap();
        assert_eq!(domain.domain_name(), "example.com");
    }
}

#[test]
fn test_invalid_domains() {
    let invalid_domains = [
        "example.com",
        "a..example.com",
        "api.example",
        "api@invalid.com",
    ];

    for domain in invalid_domains {
        let result = Domain::new(domain);
        assert!(result.is_err(), "Domain: {}", domain);
    }
}

#[test]
fn multi_label_host_keeps_its_dots() {
    let domain = Domain::new("a.b.example.com").unwrap();
    assert_eq!(domain.subdomain(), "a.b");
    assert_eq!(domain.domain_name(), "example.com");
    assert_eq!(domain.qualified_name(), "a.b.example.com");
}

#[test]
fn host_dot_zone_gives_the_name_back() {
    for name in ["api.example.com", "a.b.c.d.e", "x.y.z", "ünï.cödé.example.org"] {
        let domain = Domain::new(name).unwrap();
        let rebuilt = format!("{}.{}", domain.subdomain(), domain.domain_name());
        assert_eq!(rebuilt, name);
        assert!(name.ends_with(domain.domain_name()));
    }
}

#[test]
fn too_few_labels_is_reported_as_such() {
    for name in ["", "com", "example.com", ".", "a."] {
        match Domain::new(name) {
            Err(DomainError::DomainValidationError(reason)) => assert_eq!(
                reason,
                "Domain must have at least 3 parts (e.g., sub.example.com)"
            ),
            Ok(_) => panic!("accepted {:?}", name),
        }
    }
}

#[test]
fn empty_label_is_reported_as_such() {
    for name in [
        ".example.com",
        "api.example.",
        "api..com",
        "..",
        "a..example.com",
        "...",
    ] {
        match Domain::new(name) {
            Err(DomainError::DomainValidationError(reason)) => {
                assert_eq!(reason, "Domain contains empty parts")
            }
            Ok(_) => panic!("accepted {:?}", name),
        }
    }
}

#[test]
fn domain_error_message_carries_the_prefix() {
    let error = Domain::new("example.com").unwrap_err();
    assert_eq!(
        error.message(),
        "Domain validation error: Domain must have at least 3 parts (e.g., sub.example.com)"
    );
}

#[test]
fn cloned_domain_is_the_same() {
    let domain = Domain::new("api.example.com").unwrap();
    let copy = domain.clone();
    assert_eq!(copy.domain_name(), domain.domain_name());
    assert_eq!(copy.subdomain(), domain.subdomain());
    assert_eq!(copy.qualified_name(), domain.qualified_name());
}
