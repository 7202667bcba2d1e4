use statslogger::redact::{digest_prefix_hex, hash_string, redact_username};

#[test]
fn alice_is_redacted_to_fixed_digest() {
    let r = redact_username("alice".to_string(), true);
    assert_eq!(r, "2bd806c9");
    assert_eq!(r.len(), 8);
    assert!(r.chars().all(|c| c.is_ascii_hexdigit() && !c.is_ascii_uppercase()));
}

#[test]
fn redaction_is_stable_across_calls() {
    let a = redact_username("alice".to_string(), true);
    let b = redact_username("alice".to_string(), true);
    assert_eq!(a, b);
    assert_ne!(a, redact_username("bob".to_string(), true));
}

#[test]
fn redaction_disabled_keeps_name() {
    assert_eq!(redact_username("alice".to_string(), false), "alice");
}

#[test]
fn hash_of_other_names() {
    assert_eq!(hash_string("bob".to_string()), "81b637d8");
    assert_eq!(hash_string(String::new()), "e3b0c442");
}

#[test]
fn digest_prefix_takes_four_bytes() {
    assert_eq!(digest_prefix_hex(&vec![0xde, 0xad, 0xbe, 0xef, 0x01, 0x02]), "deadbeef");
    assert_eq!(digest_prefix_hex(&vec![0x0a]), "0a");
    assert_eq!(digest_prefix_hex(&vec![]), "");
}
