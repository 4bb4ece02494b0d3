use csp_filter::csp::{
    contains_string, collect_origin, csp_domains, csp_header_value, join_with_spaces, ADMIN_ORIGIN,
    CSP_BASE,
};
use csp_filter::origin::{normalize_origin, starts_with_https, HTTPS_PREFIX};

fn some(s: &str) -> Option<String> {
    Some(s.to_string())
}

#[test]
fn a_bare_host_and_its_origin_normalize_alike() {
    assert_eq!(normalize_origin("myshop.com".to_string()), "https://myshop.com");
    assert_eq!(normalize_origin("https://myshop.com".to_string()), "https://myshop.com");
}

#[test]
fn normalizing_puts_the_scheme_before_anything_else() {
    assert_eq!(normalize_origin(String::new()), "https://");
    assert_eq!(normalize_origin("https:/x".to_string()), "https://https:/x");
    assert_eq!(normalize_origin("http://x".to_string()), "https://http://x");
    assert_eq!(normalize_origin("HTTPS://x".to_string()), "https://HTTPS://x");
    assert_eq!(normalize_origin("https://".to_string()), "https://");
    assert_eq!(normalize_origin("中文.example".to_string()), "https://中文.example");
}

#[test]
fn starts_with_https_looks_at_the_first_eight_characters() {
    assert_eq!(HTTPS_PREFIX, "https://");
    assert!(starts_with_https("https://"));
    assert!(starts_with_https("https://a"));
    assert!(!starts_with_https("https:/"));
    assert!(!starts_with_https(""));
    assert!(!starts_with_https("xhttps://"));
    assert!(!starts_with_https("中文https://"));
}

#[test]
fn two_identifiers_of_one_origin_are_listed_once() {
    let domains = csp_domains(some("myshop.com"), some("https://myshop.com"), None);
    assert_eq!(domains, vec!["https://myshop.com", "https://admin.shopify.com"]);
    let value = csp_header_value(&domains);
    assert_eq!(value.matches("https://myshop.com").count(), 1);
    assert_eq!(
        value,
        "block-all-mixed-content; frame-ancestors https://myshop.com https://admin.shopify.com"
    );
}

#[test]
fn all_three_alike_are_listed_once() {
    let domains = csp_domains(some("a.com"), some("a.com"), some("https://a.com"));
    assert_eq!(domains, vec!["https://a.com", "https://admin.shopify.com"]);
}

#[test]
fn the_administrative_origin_is_listed_without_any_tenant() {
    let domains = csp_domains(None, None, None);
    assert_eq!(domains, vec![ADMIN_ORIGIN]);
    assert_eq!(
        csp_header_value(&domains),
        "block-all-mixed-content; frame-ancestors https://admin.shopify.com"
    );
}

#[test]
fn the_administrative_origin_comes_last_and_once() {
    let domains = csp_domains(some("admin.shopify.com"), some("b.com"), None);
    assert_eq!(domains, vec!["https://b.com", "https://admin.shopify.com"]);
    let domains = csp_domains(some("https://admin.shopify.com"), None, some("admin.shopify.com"));
    assert_eq!(domains, vec!["https://admin.shopify.com"]);
}

#[test]
fn origins_come_in_the_order_shop_referer_api_path() {
    let domains = csp_domains(some("a.com"), some("b.com"), some("c.com"));
    assert_eq!(
        domains,
        vec!["https://a.com", "https://b.com", "https://c.com", "https://admin.shopify.com"]
    );
    assert_eq!(
        csp_header_value(&domains),
        "block-all-mixed-content; frame-ancestors https://a.com https://b.com https://c.com https://admin.shopify.com"
    );
    let domains = csp_domains(None, some("b.com"), some("c.com"));
    assert_eq!(
        domains,
        vec!["https://b.com", "https://c.com", "https://admin.shopify.com"]
    );
    let domains = csp_domains(some("a.com"), some("b.com"), some("a.com"));
    assert_eq!(
        domains,
        vec!["https://a.com", "https://b.com", "https://admin.shopify.com"]
    );
}

#[test]
fn collect_origin_adds_what_is_new() {
    let mut list: Vec<String> = Vec::new();
    collect_origin(&mut list, None);
    assert!(list.is_empty());
    collect_origin(&mut list, some("a.com"));
    collect_origin(&mut list, some("https://a.com"));
    collect_origin(&mut list, some("admin.shopify.com"));
    collect_origin(&mut list, some("b.com"));
    assert_eq!(list, vec!["https://a.com", "https://b.com"]);
    assert!(contains_string(&list, &"https://b.com".to_string()));
    assert!(!contains_string(&list, &"b.com".to_string()));
}

#[test]
fn join_with_spaces_puts_one_space_between_neighbours() {
    assert_eq!(join_with_spaces(&vec![]), "");
    assert_eq!(join_with_spaces(&vec!["a".to_string()]), "a");
    assert_eq!(join_with_spaces(&vec!["a".to_string(), "b".to_string()]), "a b");
    assert_eq!(
        join_with_spaces(&vec!["a".to_string(), String::new(), "c".to_string()]),
        "a  c"
    );
}

#[test]
fn the_header_value_begins_with_the_base() {
    assert_eq!(CSP_BASE, "block-all-mixed-content; frame-ancestors");
    assert_eq!(
        csp_header_value(&vec!["https://x".to_string()]),
        "block-all-mixed-content; frame-ancestors https://x"
    );
    assert_eq!(csp_header_value(&vec![]), "block-all-mixed-content; frame-ancestors ");
}
