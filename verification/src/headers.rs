//! What the response phase asks of the response's headers, and what the
//! headers are once a host has done it.

use vstd::prelude::*;
use vstd::utf8::*;

verus! {

/// The header that the response phase takes out.
pub const FRAME_OPTIONS_HEADER: &'static str = "X-Frame-Options";

/// The header that carries the policy.
pub const CSP_HEADER: &'static str = "content-security-policy";

/// One header of a response.
#[derive(Debug, Clone, PartialEq, Eq)]
pub struct Header {
    pub name: String,
    pub value: String,
}

impl View for Header {
    type V = (Seq<char>, Seq<char>);

    open spec fn view(&self) -> (Seq<char>, Seq<char>) {
        (self.name@, self.value@)
    }
}

/// The changes that the response phase asks for: every header named
/// `remove` goes, then `add` is appended.
#[derive(Debug, Clone, PartialEq, Eq)]
pub struct ResponseEdits {
    pub remove: String,
    pub add: Header,
}

/// The headers that a sequence holds, as name and value.
pub open spec fn header_views(headers: Seq<Header>) -> Seq<(Seq<char>, Seq<char>)> {
    Seq::new(headers.len(), |i: int| headers[i]@)
}

/// `b` with an ASCII upper-case letter turned into its lower-case letter.
pub open spec fn lower(b: u8) -> u8 {
    if 0x41 <= b <= 0x5a {
        (b + 0x20) as u8
    } else {
        b
    }
}

/// Whether two byte strings are equal but for the case of ASCII letters.
pub open spec fn same_bytes_but_case(a: Seq<u8>, b: Seq<u8>) -> bool {
    &&& a.len() == b.len()
    &&& forall|i: int| 0 <= i < a.len() ==> lower(#[trigger] a[i]) == lower(b[i])
}

/// Whether `a` and `b` name the same header: header names do not tell the
/// case of ASCII letters apart.
pub open spec fn same_name(a: Seq<char>, b: Seq<char>) -> bool {
    same_bytes_but_case(encode_utf8(a), encode_utf8(b))
}

/// The headers that stay when those named `name` go.
pub open spec fn without_name(headers: Seq<(Seq<char>, Seq<char>)>, name: Seq<char>) -> Seq<
    (Seq<char>, Seq<char>),
> {
    headers.filter(|h: (Seq<char>, Seq<char>)| !same_name(h.0, name))
}

/// `headers` after the edits: without the headers named `remove`, and with
/// `add` at the end.
pub open spec fn edited(
    headers: Seq<(Seq<char>, Seq<char>)>,
    remove: Seq<char>,
    add: (Seq<char>, Seq<char>),
) -> Seq<(Seq<char>, Seq<char>)> {
    without_name(headers, remove).push(add)
}

/// The lower-case form of an ASCII upper-case letter; any other byte as it is.
pub fn to_lower(b: u8) -> (r: u8)
    ensures
        r == lower(b),
{
    if 0x41 <= b && b <= 0x5a {
        b + 0x20
    } else {
        b
    }
}

/// Whether `a` and `b` name the same header.
pub fn names_match(a: &str, b: &str) -> (r: bool)
    ensures
        r == same_name(a@, b@),
{
    let x = a.as_bytes();
    let y = b.as_bytes();
    if x.len() != y.len() {
        return false;
    }
    let mut i: usize = 0;
    while i < x.len()
        invariant
            i <= x@.len(),
            x@.len() == y@.len(),
            x@ == encode_utf8(a@),
            y@ == encode_utf8(b@),
            forall|j: int| 0 <= j < i ==> lower(#[trigger] x@[j]) == lower(y@[j]),
        decreases x@.len() - i,
    {
        if to_lower(x[i]) != to_lower(y[i]) {
            return false;
        }
        i += 1;
    }
    true
}

impl ResponseEdits {
    /// The headers of a response after the edits.
    pub fn apply(&self, headers: &Vec<Header>) -> (r: Vec<Header>)
        ensures
            header_views(r@) == edited(header_views(headers@), self.remove@, self.add@),
    {
        let ghost all = header_views(headers@);
        let ghost keep = |h: (Seq<char>, Seq<char>)| !same_name(h.0, self.remove@);
        let mut r: Vec<Header> = Vec::new();
        let mut i: usize = 0;
        proof {
            reveal(Seq::filter);
            assert(all.take(0).filter(keep) =~= header_views(r@));
        }
        while i < headers.len()
            invariant
                i <= headers@.len(),
                all == header_views(headers@),
                keep == |h: (Seq<char>, Seq<char>)| !same_name(h.0, self.remove@),
                header_views(r@) == all.take(i as int).filter(keep),
            decreases headers@.len() - i,
        {
            let ghost before = header_views(r@);
            if !names_match(headers[i].name.as_str(), self.remove.as_str()) {
                r.push(Header { name: headers[i].name.clone(), value: headers[i].value.clone() });
                assert(header_views(r@) =~= before.push(all[i as int]));
            }
            proof {
                reveal(Seq::filter);
                assert(all.take(i + 1).drop_last() =~= all.take(i as int));
                assert(all.take(i + 1).last() == all[i as int]);
            }
            i += 1;
        }
        let ghost kept = header_views(r@);
        r.push(Header { name: self.add.name.clone(), value: self.add.value.clone() });
        assert(all.take(i as int) =~= all);
        assert(header_views(r@) =~= kept.push(self.add@));
        r
    }
}

/// After the edits no header named `remove` is left, unless it is the one
/// that was added.
pub proof fn lemma_removed_is_absent(
    headers: Seq<(Seq<char>, Seq<char>)>,
    remove: Seq<char>,
    add: (Seq<char>, Seq<char>),
)
    requires
        !same_name(add.0, remove),
    ensures
        forall|i: int|
            0 <= i < edited(headers, remove, add).len() ==> !same_name(
                (#[trigger] edited(headers, remove, add)[i]).0,
                remove,
            ),
        edited(headers, remove, add).last() == add,
{
    let keep = |h: (Seq<char>, Seq<char>)| !same_name(h.0, remove);
    let kept = headers.filter(keep);
    assert forall|i: int| 0 <= i < edited(headers, remove, add).len() implies !same_name(
        (#[trigger] edited(headers, remove, add)[i]).0,
        remove,
    ) by {
        if i < kept.len() {
            headers.lemma_filter_pred(keep, i);
        }
    }
}

/// The policy's header is not the header that is taken out.
pub proof fn lemma_policy_header_stays()
    ensures
        !same_name(CSP_HEADER@, FRAME_OPTIONS_HEADER@),
{
    reveal_strlit("X-Frame-Options");
    reveal_strlit("content-security-policy");
    is_ascii_chars_encode_utf8(CSP_HEADER@);
    is_ascii_chars_encode_utf8(FRAME_OPTIONS_HEADER@);
}

} // verus!
