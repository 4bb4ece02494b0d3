use csp_filter::query::{bytes_equal, find_byte, parse_query_param, value_in_pair, value_in_query};

#[test]
fn finds_a_parameter_among_others() {
    assert_eq!(
        parse_query_param("https://x/?shop=abc&x=1", "shop"),
        Some("abc".to_string())
    );
    assert_eq!(
        parse_query_param("https://x/?shop=abc&x=1", "x"),
        Some("1".to_string())
    );
}

#[test]
fn leaves_the_fragment_out_of_the_query() {
    assert_eq!(parse_query_param("https://x/?a=1#frag?shop=abc", "shop"), None);
    assert_eq!(parse_query_param("https://x/?a=1#shop=abc", "shop"), None);
    assert_eq!(
        parse_query_param("https://x/?shop=abc#frag", "shop"),
        Some("abc".to_string())
    );
}

#[test]
fn finds_nothing_without_a_query() {
    assert_eq!(parse_query_param("https://x/no-query", "shop"), None);
    assert_eq!(parse_query_param("", "shop"), None);
    assert_eq!(parse_query_param("shop=abc", "shop"), None);
    assert_eq!(parse_query_param("https://x/#frag?shop=abc", "shop"), Some("abc".to_string()));
}

#[test]
fn an_empty_value_is_a_value() {
    assert_eq!(parse_query_param("https://x/?shop=", "shop"), Some(String::new()));
    assert_eq!(parse_query_param("https://x/?shop=&x=1", "shop"), Some(String::new()));
}

#[test]
fn the_first_of_several_wins() {
    assert_eq!(
        parse_query_param("/?shop=one&shop=two", "shop"),
        Some("one".to_string())
    );
}

#[test]
fn a_pair_without_equals_is_passed_over() {
    assert_eq!(parse_query_param("/?shop&shop=two", "shop"), Some("two".to_string()));
    assert_eq!(parse_query_param("/?shop", "shop"), None);
    assert_eq!(parse_query_param("/?&&shop=x", "shop"), Some("x".to_string()));
}

#[test]
fn a_value_that_does_not_decode_is_passed_over() {
    assert_eq!(parse_query_param("/?shop=%FF", "shop"), None);
    assert_eq!(
        parse_query_param("/?shop=%FF&shop=good", "shop"),
        Some("good".to_string())
    );
}

#[test]
fn keys_are_matched_exactly() {
    assert_eq!(parse_query_param("/?Shop=abc", "shop"), None);
    assert_eq!(parse_query_param("/?shop =abc", "shop"), None);
    assert_eq!(parse_query_param("/?shopUrl=abc", "shop"), None);
    assert_eq!(parse_query_param("/?sho%70=abc", "shop"), None);
    assert_eq!(parse_query_param("/?shopUrl=abc", "shopUrl"), Some("abc".to_string()));
}

#[test]
fn the_value_is_decoded_and_runs_to_the_next_ampersand() {
    assert_eq!(
        parse_query_param("/?shop=https%3A%2F%2Fa.example&y=2", "shop"),
        Some("https://a.example".to_string())
    );
    assert_eq!(parse_query_param("/?shop=a=b", "shop"), Some("a=b".to_string()));
    assert_eq!(parse_query_param("/?shop=a?b", "shop"), Some("a?b".to_string()));
    assert_eq!(parse_query_param("/?shop= a ", "shop"), Some(" a ".to_string()));
    assert_eq!(parse_query_param("/?shop=%E4%B8%AD", "shop"), Some("中".to_string()));
}

#[test]
fn the_first_question_mark_opens_the_query() {
    assert_eq!(parse_query_param("/a?b?shop=1", "shop"), None);
    assert_eq!(parse_query_param("/a?b?shop=1", "b?shop"), Some("1".to_string()));
}

#[test]
fn find_byte_gives_the_first_index_or_the_length() {
    assert_eq!(find_byte(b"a?b?c", b'?'), 1);
    assert_eq!(find_byte(b"abc", b'?'), 3);
    assert_eq!(find_byte(b"", b'?'), 0);
    assert_eq!(find_byte(b"?", b'?'), 0);
}

#[test]
fn bytes_equal_compares_length_and_content() {
    assert!(bytes_equal(b"shop", b"shop"));
    assert!(bytes_equal(b"", b""));
    assert!(!bytes_equal(b"shop", b"shoq"));
    assert!(!bytes_equal(b"shop", b"sho"));
}

#[test]
fn value_in_pair_needs_the_key_and_an_equals_sign() {
    assert_eq!(value_in_pair(b"shop=a%20b", b"shop"), Some("a b".to_string()));
    assert_eq!(value_in_pair(b"shop", b"shop"), None);
    assert_eq!(value_in_pair(b"=x", b""), Some("x".to_string()));
    assert_eq!(value_in_pair(b"other=x", b"shop"), None);
}

#[test]
fn value_in_query_walks_the_pairs() {
    assert_eq!(value_in_query(b"a=1&b=2&c=3", b"c"), Some("3".to_string()));
    assert_eq!(value_in_query(b"a=1&b=2&c=3", b"d"), None);
    assert_eq!(value_in_query(b"", b"a"), None);
}
