//! Tests of the domain-name grammar.
use peach_dyndns_server::generate_zone::{validate_domain, validate_fqdn};

#[test]
fn accepts_simple_subdomain() {
    assert!(validate_domain("alpha.zone.test", "zone.test"));
}

#[test]
fn accepts_multi_label_subdomain() {
    assert!(validate_domain("a.b.zone.test", "zone.test"));
}

#[test]
fn accepts_hyphenated_label() {
    assert!(validate_domain("a-b.zone.test", "zone.test"));
}

#[test]
fn accepts_digits() {
    assert!(validate_domain("host99.zone.test", "zone.test"));
}

#[test]
fn suffix_match_is_case_insensitive() {
    assert!(validate_domain("Alpha.Zone.Test", "zone.test"));
    assert!(validate_domain("alpha.zone.test", "ZONE.TEST"));
}

#[test]
fn rejects_parent_zone_itself() {
    assert!(!validate_domain("zone.test", "zone.test"));
}

#[test]
fn rejects_name_outside_parent() {
    assert!(!validate_domain("alpha.other.test", "zone.test"));
}

#[test]
fn rejects_suffix_without_dot_boundary() {
    assert!(!validate_domain("alphazone.test", "zone.test"));
}

#[test]
fn rejects_empty_name() {
    assert!(!validate_domain("", "zone.test"));
}

#[test]
fn rejects_leading_dot() {
    assert!(!validate_domain(".zone.test", "zone.test"));
}

#[test]
fn rejects_trailing_dot() {
    assert!(!validate_domain("alpha.zone.test.", "zone.test"));
}

#[test]
fn rejects_empty_label() {
    assert!(!validate_domain("a..zone.test", "zone.test"));
}

#[test]
fn rejects_label_starting_with_hyphen() {
    assert!(!validate_domain("-a.zone.test", "zone.test"));
}

#[test]
fn rejects_label_ending_with_hyphen() {
    assert!(!validate_domain("a-.zone.test", "zone.test"));
}

#[test]
fn rejects_underscore() {
    assert!(!validate_domain("a_b.zone.test", "zone.test"));
}

#[test]
fn rejects_space() {
    assert!(!validate_domain("a b.zone.test", "zone.test"));
}

#[test]
fn label_of_63_characters_is_accepted() {
    let label = "a".repeat(63);
    let name = format!("{}.zone.test", label);
    assert!(validate_domain(&name, "zone.test"));
}

#[test]
fn label_of_64_characters_is_rejected() {
    let label = "a".repeat(64);
    let name = format!("{}.zone.test", label);
    assert!(!validate_domain(&name, "zone.test"));
}

#[test]
fn name_longer_than_253_characters_is_rejected() {
    // 25 labels of 9 characters plus "zone.test": 10 * 25 + 9 = 259
    let mut name = String::new();
    for _ in 0..25 {
        name.push_str("abcdefghi.");
    }
    name.push_str("zone.test");
    assert!(name.len() > 253);
    assert!(!validate_fqdn(&name));
    assert!(!validate_domain(&name, "zone.test"));
}

#[test]
fn fqdn_single_label() {
    assert!(validate_fqdn("localhost"));
    assert!(validate_fqdn("a"));
}

#[test]
fn fqdn_rejects_double_dot() {
    assert!(!validate_fqdn("a..b"));
}

#[test]
fn fqdn_rejects_lone_dot() {
    assert!(!validate_fqdn("."));
}

#[test]
fn rejects_characters_adjacent_to_accepted_ranges() {
    // '/' and ':' sit just outside '0'..'9'; '@' and '[' just outside 'A'..'Z';
    // '`' and '{' just outside 'a'..'z'
    for c in ['/', ':', '@', '[', '`', '{'] {
        let name = format!("a{}b.zone.test", c);
        assert!(!validate_domain(&name, "zone.test"), "accepted {:?}", c);
    }
}

#[test]
fn name_of_253_characters_is_accepted() {
    // 61 * 4 = 244 characters of labels, then ".zone.test" brings it to 253
    let label = "a".repeat(60);
    let name = format!("{l}.{l}.{l}.{l}.zone.test", l = label);
    assert_eq!(name.len(), 253);
    assert!(validate_domain(&name, "zone.test"));
    let longer = format!("ab.{}", name);
    assert!(!validate_domain(&longer, "zone.test"));
}
