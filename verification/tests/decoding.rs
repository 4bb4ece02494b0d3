use csp_filter::percent::{decode_bytes, urldecode, DecodeError};
use percent_encoding::{utf8_percent_encode, NON_ALPHANUMERIC};

#[test]
fn test_urldecode() {
    assert_eq!(urldecode("hello%20world").unwrap(), "hello world");
    assert_eq!(urldecode("1%2B2%3D3").unwrap(), "1+2=3");
    assert_eq!(urldecode("foo%5Bbar%5D").unwrap(), "foo[bar]");
    assert_eq!(urldecode("https%3A%2F%2Fexample.com").unwrap(), "https://example.com");
    assert_eq!(urldecode("%E4%B8%AD%E6%96%87").unwrap(), "中文");
    assert_eq!(urldecode("").unwrap(), "");
    assert_eq!(urldecode("normal_string").unwrap(), "normal_string");
}

#[test]
fn urldecode_rejects_bytes_that_are_not_utf8() {
    assert_eq!(urldecode("%FF"), Err(DecodeError::InvalidUtf8));
    assert_eq!(urldecode("abc%C3"), Err(DecodeError::InvalidUtf8));
    assert_eq!(urldecode("%00%9F%92%96"), Err(DecodeError::InvalidUtf8));
}

#[test]
fn urldecode_takes_digits_of_either_case() {
    assert_eq!(urldecode("%2f%2F").unwrap(), "//");
    assert_eq!(urldecode("%e4%b8%ad").unwrap(), "中");
}

#[test]
fn urldecode_leaves_a_percent_that_opens_no_escape() {
    assert_eq!(urldecode("100%").unwrap(), "100%");
    assert_eq!(urldecode("%4").unwrap(), "%4");
    assert_eq!(urldecode("%zz").unwrap(), "%zz");
    assert_eq!(urldecode("%%41").unwrap(), "%A");
    assert_eq!(urldecode("%2").unwrap(), "%2");
}

#[test]
fn urldecode_leaves_plus_alone() {
    assert_eq!(urldecode("a+b").unwrap(), "a+b");
}

#[test]
fn decode_bytes_agrees_with_urldecode() {
    assert_eq!(decode_bytes(b"foo%20bar%3f").unwrap(), "foo bar?");
    assert_eq!(decode_bytes(b"\xff"), Err(DecodeError::InvalidUtf8));
    assert_eq!(decode_bytes(b"").unwrap(), "");
}

#[test]
fn decoding_undoes_encoding() {
    let samples = [
        "",
        "plain",
        "hello world",
        "100% sure",
        "%20 is a space",
        "%41%42",
        "a=b&c=d#e?f",
        "https://example.com/path?x=1",
        "中文 and ascii",
        "%",
        "%%",
        "%zz",
    ];
    for s in samples {
        let encoded = utf8_percent_encode(s, NON_ALPHANUMERIC).to_string();
        assert_eq!(urldecode(&encoded).unwrap(), s);
    }
}
