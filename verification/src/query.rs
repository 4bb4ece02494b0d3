//! Looking up one parameter in the query component of a URL-like string.
//!
//! The delimiters are ASCII, so the search runs on the UTF-8 bytes of the
//! source and the contracts speak of those bytes.

use crate::percent::{decode_bytes, decoded_text, percent_decoded};
use vstd::prelude::*;
use vstd::slice::slice_subrange;
use vstd::utf8::*;

verus! {

/// `?`, which opens the query component.
pub const QUESTION: u8 = 0x3f;

/// `#`, which opens the fragment.
pub const HASH: u8 = 0x23;

/// `&`, which parts the pairs of a query.
pub const AMPERSAND: u8 = 0x26;

/// `=`, which parts a pair's key from its value.
pub const EQUALS: u8 = 0x3d;

/// The index of the first `b` in `s`, or the length of `s` if it holds none.
pub open spec fn position_of(s: Seq<u8>, b: u8) -> nat
    decreases s.len(),
{
    if s.len() == 0 || s[0] == b {
        0
    } else {
        1 + position_of(s.skip(1), b)
    }
}

/// The query component of `source`: what follows the first `?`, up to the
/// first `#` after it. `None` where `source` holds no `?`.
pub open spec fn query_of(source: Seq<u8>) -> Option<Seq<u8>> {
    let q = position_of(source, QUESTION) as int;
    if q == source.len() {
        None
    } else {
        let rest = source.skip(q + 1);
        Some(rest.take(position_of(rest, HASH) as int))
    }
}

/// The value that the single pair `pair` gives `name`: the pair is parted at
/// its first `=`, its key must equal `name` byte for byte, and its value must
/// decode to text.
pub open spec fn pair_value(pair: Seq<u8>, name: Seq<u8>) -> Option<Seq<char>> {
    let e = position_of(pair, EQUALS) as int;
    if e < pair.len() && pair.take(e) == name {
        decoded_text(pair.skip(e + 1))
    } else {
        None
    }
}

/// The value of the first pair of `query`, parted on `&`, that gives `name`
/// a value.
pub open spec fn first_value(query: Seq<u8>, name: Seq<u8>) -> Option<Seq<char>>
    decreases query.len(),
{
    let a = position_of(query, AMPERSAND) as int;
    let here = pair_value(query.take(a), name);
    if here is Some {
        here
    } else if a < query.len() {
        first_value(query.skip(a + 1), name)
    } else {
        None
    }
}

/// The decoded value of parameter `name` in the query component of `source`.
pub open spec fn query_param(source: Seq<u8>, name: Seq<u8>) -> Option<Seq<char>> {
    match query_of(source) {
        Some(query) => first_value(query, name),
        None => None,
    }
}

/// What `position_of` picks: nothing before it is `b`, and it is `b` unless
/// it is the end.
pub proof fn lemma_position_of(s: Seq<u8>, b: u8)
    ensures
        position_of(s, b) <= s.len(),
        forall|i: int| 0 <= i < position_of(s, b) ==> s[i] != b,
        position_of(s, b) < s.len() ==> s[position_of(s, b) as int] == b,
    decreases s.len(),
{
    if s.len() != 0 && s[0] != b {
        lemma_position_of(s.skip(1), b);
        assert forall|i: int| 0 <= i < position_of(s, b) implies s[i] != b by {
            if i > 0 {
                assert(s.skip(1)[i - 1] == s[i]);
            }
        }
    }
}

/// The first index at which `b` stands in `s`, or the length of `s`.
pub fn find_byte(s: &[u8], b: u8) -> (i: usize)
    ensures
        i == position_of(s@, b),
        i <= s@.len(),
        forall|j: int| 0 <= j < i ==> s@[j] != b,
        i < s@.len() ==> s@[i as int] == b,
{
    proof {
        lemma_position_of(s@, b);
    }
    let mut i: usize = 0;
    assert(s@.skip(0) =~= s@);
    while i < s.len() && s[i] != b
        invariant
            i <= s@.len(),
            position_of(s@, b) == i + position_of(s@.skip(i as int), b),
        decreases s@.len() - i,
    {
        proof {
            let tail = s@.skip(i as int);
            assert(tail[0] == s@[i as int]);
            assert(tail.skip(1) =~= s@.skip(i + 1));
        }
        i += 1;
    }
    proof {
        let tail = s@.skip(i as int);
        if i < s@.len() {
            assert(tail[0] == s@[i as int]);
        }
    }
    i
}

/// Whether two byte strings are equal.
pub fn bytes_equal(a: &[u8], b: &[u8]) -> (r: bool)
    ensures
        r == (a@ == b@),
{
    if a.len() != b.len() {
        return false;
    }
    let mut i: usize = 0;
    while i < a.len()
        invariant
            i <= a@.len(),
            a@.len() == b@.len(),
            forall|j: int| 0 <= j < i ==> a@[j] == b@[j],
        decreases a@.len() - i,
    {
        if a[i] != b[i] {
            return false;
        }
        i += 1;
    }
    assert(a@ =~= b@);
    true
}

/// The value that the single pair `pair` gives `name`, decoded.
pub fn value_in_pair(pair: &[u8], name: &[u8]) -> (r: Option<String>)
    ensures
        match r {
            Some(text) => pair_value(pair@, name@) == Some(text@),
            None => pair_value(pair@, name@) is None,
        },
{
    let e = find_byte(pair, EQUALS);
    if e == pair.len() {
        return None;
    }
    if !bytes_equal(slice_subrange(pair, 0, e), name) {
        return None;
    }
    match decode_bytes(slice_subrange(pair, e + 1, pair.len())) {
        Ok(text) => Some(text),
        Err(_) => None,
    }
}

/// The value of the first pair of `query` that gives `name` a value.
pub fn value_in_query(query: &[u8], name: &[u8]) -> (r: Option<String>)
    ensures
        match r {
            Some(text) => first_value(query@, name@) == Some(text@),
            None => first_value(query@, name@) is None,
        },
{
    let mut start: usize = 0;
    assert(query@.skip(0) =~= query@);
    loop
        invariant
            start <= query@.len(),
            first_value(query@, name@) == first_value(query@.skip(start as int), name@),
        decreases query@.len() - start,
    {
        let tail = slice_subrange(query, start, query.len());
        let a = find_byte(tail, AMPERSAND);
        match value_in_pair(slice_subrange(tail, 0, a), name) {
            Some(text) => {
                return Some(text);
            },
            None => {},
        }
        if a == tail.len() {
            return None;
        }
        proof {
            assert(tail.view().skip(a + 1) =~= query@.skip(start + a + 1));
        }
        start = start + a + 1;
    }
}

/// Finds parameter `key` in the query component of `url_str` and decodes its
/// value.
///
/// The query component is what follows the first `?`, without the fragment
/// that the first `#` after it opens. Its pairs are parted on `&`, each pair
/// at its first `=`. The result is the decoded value of the first pair whose
/// key equals `key` byte for byte and whose value decodes to text; a pair
/// without `=`, with another key, or with a value that does not decode is
/// passed over. An empty value is a value.
pub fn parse_query_param(url_str: &str, key: &str) -> (r: Option<String>)
    ensures
        match r {
            Some(text) => query_param(encode_utf8(url_str@), encode_utf8(key@)) == Some(text@),
            None => query_param(encode_utf8(url_str@), encode_utf8(key@)) is None,
        },
{
    let source = url_str.as_bytes();
    let q = find_byte(source, QUESTION);
    if q == source.len() {
        return None;
    }
    let rest = slice_subrange(source, q + 1, source.len());
    let h = find_byte(rest, HASH);
    value_in_query(slice_subrange(rest, 0, h), key.as_bytes())
}

/// Where the first `b` of two joined strings stands: in the first string if
/// it holds one, else where the second has it.
pub proof fn lemma_position_of_concat(a: Seq<u8>, b: Seq<u8>, x: u8)
    ensures
        position_of(a + b, x) == if a.contains(x) {
            position_of(a, x)
        } else {
            a.len() + position_of(b, x)
        },
    decreases a.len(),
{
    if a.len() == 0 {
        assert(a + b =~= b);
    } else {
        assert((a + b)[0] == a[0]);
        if a[0] == x {
            assert(a.contains(x));
        } else {
            assert((a + b).skip(1) =~= a.skip(1) + b);
            lemma_position_of_concat(a.skip(1), b, x);
            if a.contains(x) {
                let i = choose|i: int| 0 <= i < a.len() && a[i] == x;
                assert(a.skip(1)[i - 1] == x);
            }
            if a.skip(1).contains(x) {
                let i = choose|i: int| 0 <= i < a.skip(1).len() && a.skip(1)[i] == x;
                assert(a[i + 1] == x);
            }
        }
    }
}

/// A source without `?` has no query, so no parameter is found in it.
pub proof fn lemma_no_query_no_value(source: Seq<u8>, name: Seq<u8>)
    requires
        !source.contains(QUESTION),
    ensures
        query_of(source) is None,
        query_param(source, name) is None,
{
    lemma_position_of(source, QUESTION);
}

/// The fragment is no part of the query: what follows a `#` behind the
/// first `?` changes nothing.
pub proof fn lemma_fragment_is_ignored(head: Seq<u8>, fragment: Seq<u8>, name: Seq<u8>)
    requires
        head.contains(QUESTION),
    ensures
        query_of(head + seq![HASH] + fragment) == query_of(head),
        query_param(head + seq![HASH] + fragment, name) == query_param(head, name),
{
    let tail = seq![HASH] + fragment;
    let source = head + tail;
    assert(source =~= head + seq![HASH] + fragment);
    lemma_position_of_concat(head, tail, QUESTION);
    lemma_position_of(head, QUESTION);
    let q = position_of(head, QUESTION) as int;
    let rest = head.skip(q + 1);
    assert(source.skip(q + 1) =~= rest + tail);
    lemma_position_of_concat(rest, tail, HASH);
    lemma_position_of(rest, HASH);
    assert(position_of(tail, HASH) == 0);
    let h = position_of(rest, HASH) as int;
    assert((rest + tail).take(h) =~= rest.take(h));
}

/// The first pair that gives the parameter a value decides; a pair that
/// gives it none is passed over.
pub proof fn lemma_first_pair_decides(pair: Seq<u8>, others: Seq<u8>, name: Seq<u8>)
    requires
        !pair.contains(AMPERSAND),
    ensures
        first_value(pair + seq![AMPERSAND] + others, name) == if pair_value(pair, name) is Some {
            pair_value(pair, name)
        } else {
            first_value(others, name)
        },
{
    let tail = seq![AMPERSAND] + others;
    let query = pair + tail;
    assert(query =~= pair + seq![AMPERSAND] + others);
    lemma_position_of_concat(pair, tail, AMPERSAND);
    assert(position_of(tail, AMPERSAND) == 0);
    let a = pair.len() as int;
    assert(query.take(a) =~= pair);
    assert(query.skip(a + 1) =~= others);
}

/// A pair with the parameter's name and nothing behind the `=` gives the
/// parameter the empty text.
pub proof fn lemma_empty_value_is_a_value(name: Seq<u8>)
    requires
        !name.contains(EQUALS),
    ensures
        pair_value(name + seq![EQUALS], name) == Some(Seq::<char>::empty()),
{
    let pair = name + seq![EQUALS];
    lemma_position_of_concat(name, seq![EQUALS], EQUALS);
    assert(position_of(seq![EQUALS], EQUALS) == 0);
    let e = name.len() as int;
    assert(pair.take(e) =~= name);
    assert(pair.skip(e + 1) =~= Seq::<u8>::empty());
    assert(percent_decoded(Seq::<u8>::empty()) =~= Seq::<u8>::empty());
    assert(decode_utf8(Seq::<u8>::empty()) =~= Seq::<char>::empty());
}

} // verus!
