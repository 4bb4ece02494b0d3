//! Turning a tenant identifier into an origin.

use vstd::prelude::*;
use vstd::std_specs::iter::IteratorSpec;
use vstd::string::*;

verus! {

/// The scheme that every origin carries.
pub const HTTPS_PREFIX: &'static str = "https://";

/// The origin that `raw` names: `raw` itself where it already begins with
/// the scheme, else the scheme and `raw`.
pub open spec fn normalized(raw: Seq<char>) -> Seq<char> {
    if HTTPS_PREFIX@.is_prefix_of(raw) {
        raw
    } else {
        HTTPS_PREFIX@ + raw
    }
}

/// Whether `s` begins with the scheme.
pub fn starts_with_https(s: &str) -> (r: bool)
    ensures
        r == HTTPS_PREFIX@.is_prefix_of(s@),
{
    proof {
        reveal_strlit("https://");
    }
    let mut rest = s.chars();
    let mut i: usize = 0;
    while i < 8
        invariant
            i <= 8,
            i <= s@.len(),
            HTTPS_PREFIX@.len() == 8,
            rest.remaining() == s@.skip(i as int),
            forall|j: int| 0 <= j < i ==> s@[j] == HTTPS_PREFIX@[j],
        decreases 8 - i,
    {
        match rest.next() {
            None => {
                return false;
            },
            Some(c) => {
                if c != HTTPS_PREFIX.get_char(i) {
                    return false;
                }
            },
        }
        i += 1;
    }
    assert(s@.subrange(0, 8) =~= HTTPS_PREFIX@);
    true
}

/// Puts the scheme before a tenant identifier that lacks it.
pub fn normalize_origin(raw: String) -> (r: String)
    ensures
        r@ == normalized(raw@),
        HTTPS_PREFIX@.is_prefix_of(r@),
{
    if starts_with_https(raw.as_str()) {
        raw
    } else {
        let r = HTTPS_PREFIX.to_owned().concat(raw.as_str());
        assert(r@.subrange(0, HTTPS_PREFIX@.len() as int) =~= HTTPS_PREFIX@);
        r
    }
}

/// Every origin begins with the scheme, and an origin is its own origin.
pub proof fn lemma_normalized_is_origin(raw: Seq<char>)
    ensures
        HTTPS_PREFIX@.is_prefix_of(normalized(raw)),
        normalized(normalized(raw)) == normalized(raw),
{
    if !HTTPS_PREFIX@.is_prefix_of(raw) {
        assert((HTTPS_PREFIX@ + raw).subrange(0, HTTPS_PREFIX@.len() as int) =~= HTTPS_PREFIX@);
    }
}

/// A bare host and the same host behind the scheme name one origin.
pub proof fn lemma_bare_host_same_origin(host: Seq<char>)
    requires
        !HTTPS_PREFIX@.is_prefix_of(host),
    ensures
        normalized(host) == normalized(HTTPS_PREFIX@ + host),
        normalized(host) == HTTPS_PREFIX@ + host,
{
    lemma_normalized_is_origin(host);
}

} // verus!
