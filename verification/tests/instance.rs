use jacanaoesta::instance::{is_instance_address, validate_url};

fn valid(text: &str) -> bool {
    validate_url(&text.to_string())
}

#[test]
fn an_instance_has_a_web_address_without_a_path() {
    assert!(valid("https://example.test"));
    assert!(valid("https://example.test/"));
    assert!(valid("http://example.test"));
    assert!(valid("HTTPS://Example.Test"));
    assert!(valid("https://example.test:8443"));
    assert!(valid("https://example.test?x=1"));
}

#[test]
fn other_addresses_are_refused() {
    assert!(!valid(""));
    assert!(!valid("example.test"));
    assert!(!valid("ftp://example.test"));
    assert!(!valid("mailto:someone@example.test"));
    assert!(!valid("https://example.test/web"));
    assert!(!valid("https://example.test/api/"));
    assert!(!valid("https://"));
}

#[test]
fn scheme_and_path_decide() {
    assert!(is_instance_address("https", "/"));
    assert!(is_instance_address("http", "/"));
    assert!(!is_instance_address("https", ""));
    assert!(!is_instance_address("https", "//"));
    assert!(!is_instance_address("HTTPS", "/"));
    assert!(!is_instance_address("httpss", "/"));
    assert!(!is_instance_address("", "/"));
}
