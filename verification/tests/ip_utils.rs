use porkdyn::ip_literal::{is_ipv4, is_ipv6};
use porkdyn::ip_utils::{validate_and_classify_ip, IpType, RecordType};

#[test]
fn test_valid_ipv4() {
    assert_eq!(validate_and_classify_ip("192.168.1.1"), Ok(IpType::V4));
    assert_eq!(validate_and_classify_ip("127.0.0.1"), Ok(IpType::V4));
    assert_eq!(validate_and_classify_ip("0.0.0.0"), Ok(IpType::V4));
    assert_eq!(validate_and_classify_ip("255.255.255.255"), Ok(IpType::V4));
}

#[test]
fn test_valid_ipv6() {
    assert_eq!(validate_and_classify_ip("::1"), Ok(IpType::V6));
    assert_eq!(validate_and_classify_ip("2001:db8::1"), Ok(IpType::V6));
    assert_eq!(validate_and_classify_ip("fe80::1"), Ok(IpType::V6));
    assert_eq!(
        validate_and_classify_ip("2001:0db8:85a3:0000:0000:8a2e:0370:7334"),
        Ok(IpType::V6)
    );
    assert_eq!(
        validate_and_classify_ip("2001:db8:85a3::8a2e:370:7334"),
        Ok(IpType::V6)
    );
}

#[test]
fn test_invalid_ip() {
    assert!(validate_and_classify_ip("256.1.1.1").is_err());
    assert!(validate_and_classify_ip("192.168.1").is_err());
    assert!(validate_and_classify_ip("not_an_ip").is_err());
    assert!(validate_and_classify_ip("").is_err());
    assert!(validate_and_classify_ip("2001:db8::g1").is_err());
    // Zone identifiers are not part of an address literal
    assert!(validate_and_classify_ip("fe80::1%lo0").is_err());
}

#[test]
fn test_record_type_conversion() {
    assert_eq!(RecordType::from(IpType::V4), RecordType::A);
    assert_eq!(RecordType::from(IpType::V6), RecordType::AAAA);
}

#[test]
fn test_record_type_as_str() {
    assert_eq!(RecordType::A.as_str(), "A");
    assert_eq!(RecordType::AAAA.as_str(), "AAAA");
}

#[test]
fn invalid_address_is_reported_with_the_raw_text() {
    assert_eq!(
        validate_and_classify_ip("not_an_ip"),
        Err("Invalid IP address: not_an_ip".to_string())
    );
    assert_eq!(
        validate_and_classify_ip(""),
        Err("Invalid IP address: ".to_string())
    );
    assert_eq!(
        validate_and_classify_ip("fe80::1%lo0"),
        Err("Invalid IP address: fe80::1%lo0".to_string())
    );
}

#[test]
fn ipv4_octets_are_strict() {
    for text in ["1.2.3.4", "9.99.199.249", "250.251.252.255", "0.0.0.1"] {
        assert_eq!(validate_and_classify_ip(text), Ok(IpType::V4), "{}", text);
    }
    for text in [
        "01.2.3.4",
        "1.2.3.04",
        "00.0.0.0",
        "1.2.3.4.",
        ".1.2.3.4",
        "1..2.3",
        "1.2.3",
        "1.2.3.4.5",
        " 1.2.3.4",
        "1.2.3.4 ",
        "1.2.3.1000",
        "1.2.3.256",
        "1.2.3.-4",
        "1.2.3.+4",
        "1.2.3.4/24",
        "0x1.2.3.4",
        "1.2.3.a",
        "1,2,3,4",
        "\u{ff11}.2.3.4",
        "1.2.3.\u{0664}",
        "....",
        "...",
    ] {
        assert!(validate_and_classify_ip(text).is_err(), "{:?}", text);
    }
}

#[test]
fn ipv6_full_and_elided_forms() {
    for text in [
        "::",
        "::1",
        "1::",
        "1:2:3:4:5:6:7:8",
        "1:2:3:4:5:6:7::",
        "::2:3:4:5:6:7:8",
        "1::3:4:5:6:7:8",
        "1:2:3:4::6:7:8",
        "ABCD:EF01:2345:6789:abcd:ef01:2345:6789",
        "0:0:0:0:0:0:0:0",
        "00:000:0000:0::",
        "ffff:ffff:ffff:ffff:ffff:ffff:ffff:ffff",
    ] {
        assert_eq!(validate_and_classify_ip(text), Ok(IpType::V6), "{}", text);
    }
    for text in [
        ":",
        ":::",
        "1:::2",
        ":1",
        "1:",
        ":1:2:3:4:5:6:7",
        "1:2:3:4:5:6:7:",
        "1:2:3:4:5:6:7",
        "1:2:3:4:5:6:7:8:9",
        "1::2::3",
        "::1::",
        "12345::",
        "::12345",
        "1:2:3:4:5:6:7:8::",
        "::1:2:3:4:5:6:7:8",
        "1:2:3:4:5:6:7::8",
        "1::2:3:4:5:6:7:8",
        "[::1]",
        "::1 ",
        " ::1",
        "::g",
        "1:2:3:4:5:6:7:8%eth0",
        "::1/128",
        "1;2::",
    ] {
        assert!(validate_and_classify_ip(text).is_err(), "{:?}", text);
    }
}

#[test]
fn ipv6_may_end_in_an_ipv4_literal() {
    for text in [
        "::1.2.3.4",
        "::ffff:192.168.1.1",
        "::ffff:255.255.255.255",
        "1::1.2.3.4",
        "1:2:3:4:5:6:1.2.3.4",
        "1:2:3:4:5::7.8.9.10",
        "::2:3:4:5:6:1.2.3.4",
        "64:ff9b::192.0.2.33",
    ] {
        assert_eq!(validate_and_classify_ip(text), Ok(IpType::V6), "{}", text);
    }
    for text in [
        "1.2.3.4::",
        "1.2.3.4::1",
        "1.2.3.4:1:2:3:4:5:6",
        "::1.2.3.4:5",
        "1:2:3:4:5:6:7:1.2.3.4",
        "1:2:3:4:5:1.2.3.4",
        "1:2:3:4:5:6::1.2.3.4",
        "::1:2:3:4:5:6:1.2.3.4",
        "::ffff:1.2.3",
        "::ffff:01.2.3.4",
        "::ffff:256.1.1.1",
        "::ffff:1.2.3.4.5",
        "::1.2.3.4.",
    ] {
        assert!(validate_and_classify_ip(text).is_err(), "{:?}", text);
    }
}

#[test]
fn each_family_maps_to_its_record_type() {
    let v4 = validate_and_classify_ip("192.168.1.1").unwrap();
    let v6 = validate_and_classify_ip("2001:db8::1").unwrap();
    assert_eq!(RecordType::from(v4), RecordType::A);
    assert_eq!(RecordType::from(v6), RecordType::AAAA);
    assert_eq!(RecordType::from(v4).as_str(), "A");
    assert_eq!(RecordType::from(v6).as_str(), "AAAA");
}

#[test]
fn each_recognizer_knows_its_own_family_only() {
    assert!(is_ipv4("10.0.0.1"));
    assert!(!is_ipv4("::1"));
    assert!(!is_ipv4("::ffff:10.0.0.1"));
    assert!(!is_ipv4(""));
    assert!(is_ipv6("::1"));
    assert!(is_ipv6("::ffff:10.0.0.1"));
    assert!(!is_ipv6("10.0.0.1"));
    assert!(!is_ipv6(""));
}

#[test]
fn no_text_is_of_both_families() {
    for text in [
        "1.2.3.4", "::", "::1.2.3.4", "1:2:3:4:5:6:7:8", "", "1", "1.2.3.4:5", "a.b.c.d",
    ] {
        assert!(!(is_ipv4(text) && is_ipv6(text)), "{:?}", text);
        let expected = if is_ipv4(text) {
            Some(IpType::V4)
        } else if is_ipv6(text) {
            Some(IpType::V6)
        } else {
            None
        };
        assert_eq!(validate_and_classify_ip(text).ok(), expected, "{:?}", text);
    }
}

#[test]
fn foreign_characters_are_refused_anywhere() {
    for text in [
        "fe80::1%lo0",
        "fe80::1%1",
        "%::1",
        "1.2.3.4%eth0",
        "1.2.3.4 ",
        "::1\n",
        "g::1",
        "1.2.3.4\u{0}",
        "2001:db8::\u{e9}",
    ] {
        assert!(validate_and_classify_ip(text).is_err(), "{:?}", text);
    }
}
