use abuse_helper::indicator::{first_ip_address, is_ip_address};
use abuse_helper::models::email::normalize;
use abuse_helper::models::score::{is_unit_numeral, Confidence};
use abuse_helper::text::{decimal_string, join};

#[test]
fn numerals_between_zero_and_one() {
    for s in ["0", "1", "0.0", "1.0", "0.9", "1e0", "1e-7", "10e-1", "0.5E+0", "-0", "-0.0", "0e5",
        "1.000", "100e-2"] {
        assert!(is_unit_numeral(s), "{}", s);
    }
    // Thirty-two digits are read, thirty-three are not.
    assert!(is_unit_numeral(&format!("0.{}1", "0".repeat(30))));
    assert!(!is_unit_numeral(&format!("0.{}1", "0".repeat(31))));
    assert!(is_unit_numeral("1e-999"));
    for s in ["", "-", ".", "1.", ".5", "1.0000001", "2", "1e1", "11e-1", "-0.1", "-1e-9", "abc",
        "0.5x", "1e", "1e+", "+1", " 0.5", "0x1", "NaN", "1e-",
        "1e-1000"] {
        assert!(!is_unit_numeral(s), "{}", s);
    }
    assert!(Confidence::parse("0.25").is_some());
    assert!(Confidence::parse("1.5").is_none());
    assert_eq!(Confidence::zero().numeral, "0.0");
    assert!(Confidence::zero().is_valid());
}

#[test]
fn ip_addresses_are_told_from_other_indicators() {
    for s in ["10.0.0.5", "0.0.0.0", "255.255.255.255", "192.168.001.1"] {
        assert!(is_ip_address(s), "{}", s);
    }
    for s in ["http://evil.example/reset", "evil.example", "256.1.1.1", "1.2.3", "1.2.3.4.5",
        "1.2.3.4 ", "", "1..2.3", "a.b.c.d", "1.2.3.1234", "10.0.0.5/8"] {
        assert!(!is_ip_address(s), "{}", s);
    }
    let items = vec!["http://evil.example/reset".to_string(), "10.0.0.5".to_string(), "1.1.1.1".to_string()];
    assert_eq!(first_ip_address(&items), Some("10.0.0.5".to_string()));
    assert_eq!(first_ip_address(&vec!["evil.example".to_string()]), None);
}

#[test]
fn text_helpers() {
    assert_eq!(join(&vec![], ", "), "");
    assert_eq!(join(&vec!["a".to_string()], ", "), "a");
    assert_eq!(join(&vec!["a".to_string(), "b".to_string(), "".to_string()], ", "), "a, b, ");
    assert_eq!(decimal_string(0), "0");
    assert_eq!(decimal_string(7), "7");
    assert_eq!(decimal_string(10), "10");
    assert_eq!(decimal_string(65535), "65535");
    assert_eq!(decimal_string(u64::MAX), "18446744073709551615");
    assert_eq!(normalize("Some.One@Example.ORG"), "some.one@example.org");
    assert_eq!(normalize("ÄB"), "Äb");
}
