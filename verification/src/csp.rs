//! The `frame-ancestors` policy: which origins it lists, and how it is
//! written out.

use crate::origin::{lemma_normalized_is_origin, normalize_origin, normalized, HTTPS_PREFIX};
use vstd::prelude::*;
use vstd::string::*;

verus! {

/// The origin that every policy lists, whatever the exchange.
pub const ADMIN_ORIGIN: &'static str = "https://admin.shopify.com";

/// What the policy holds before its origins.
pub const CSP_BASE: &'static str = "block-all-mixed-content; frame-ancestors";

/// The texts that a sequence of strings holds.
pub open spec fn texts(strings: Seq<String>) -> Seq<Seq<char>> {
    Seq::new(strings.len(), |i: int| strings[i]@)
}

/// The text of an optional string.
pub open spec fn text_of(s: Option<String>) -> Option<Seq<char>> {
    match s {
        Some(s) => Some(s@),
        None => None,
    }
}

/// `list` after the tenant identifier `raw` was discovered: its origin goes
/// to the end, unless there is no identifier, the list holds its origin
/// already, or it is the administrative origin, which has its own place.
pub open spec fn collected(list: Seq<Seq<char>>, raw: Option<Seq<char>>) -> Seq<Seq<char>> {
    match raw {
        Some(t) => if normalized(t) == ADMIN_ORIGIN@ || list.contains(normalized(t)) {
            list
        } else {
            list.push(normalized(t))
        },
        None => list,
    }
}

/// The origins of the policy, in the order in which it lists them: the
/// tenants' origins as they were discovered, each once, and the
/// administrative origin last.
pub open spec fn csp_origins(
    shop: Option<Seq<char>>,
    refershop: Option<Seq<char>>,
    apipathshop: Option<Seq<char>>,
) -> Seq<Seq<char>> {
    collected(collected(collected(Seq::empty(), shop), refershop), apipathshop).push(
        ADMIN_ORIGIN@,
    )
}

/// `parts` with one space between neighbours.
pub open spec fn joined(parts: Seq<Seq<char>>) -> Seq<char>
    decreases parts.len(),
{
    if parts.len() == 0 {
        Seq::empty()
    } else if parts.len() == 1 {
        parts[0]
    } else {
        joined(parts.drop_last()) + seq![' '] + parts.last()
    }
}

/// The header value that lists `origins`.
pub open spec fn csp_value(origins: Seq<Seq<char>>) -> Seq<char> {
    CSP_BASE@ + seq![' '] + joined(origins)
}

/// Whether `list` holds a string equal to `item`.
pub fn contains_string(list: &Vec<String>, item: &String) -> (r: bool)
    ensures
        r == texts(list@).contains(item@),
{
    let mut i: usize = 0;
    while i < list.len()
        invariant
            i <= list@.len(),
            forall|j: int| 0 <= j < i ==> texts(list@)[j] != item@,
        decreases list@.len() - i,
    {
        if list[i] == *item {
            assert(texts(list@)[i as int] == item@);
            return true;
        }
        i += 1;
    }
    false
}

/// Adds the origin of a discovered tenant identifier to `list`.
pub fn collect_origin(list: &mut Vec<String>, raw: Option<String>)
    ensures
        texts(final(list)@) == collected(texts(old(list)@), text_of(raw)),
{
    match raw {
        Some(raw) => {
            let origin = normalize_origin(raw);
            let admin = ADMIN_ORIGIN.to_owned();
            if !(origin == admin) && !contains_string(list, &origin) {
                list.push(origin);
                assert(texts(list@) =~= texts(old(list)@).push(origin@));
            }
        },
        None => {},
    }
}

/// The origins that the policy lists for the three tenant identifiers of an
/// exchange, each of which may be absent.
pub fn csp_domains(
    shop: Option<String>,
    refershop: Option<String>,
    apipathshop: Option<String>,
) -> (domains: Vec<String>)
    ensures
        texts(domains@) == csp_origins(text_of(shop), text_of(refershop), text_of(apipathshop)),
{
    let mut domains: Vec<String> = Vec::new();
    assert(texts(domains@) =~= Seq::empty());
    collect_origin(&mut domains, shop);
    collect_origin(&mut domains, refershop);
    collect_origin(&mut domains, apipathshop);
    let ghost tenants = texts(domains@);
    domains.push(ADMIN_ORIGIN.to_owned());
    assert(texts(domains@) =~= tenants.push(ADMIN_ORIGIN@));
    domains
}

/// Writes `parts` out with one space between neighbours.
pub fn join_with_spaces(parts: &Vec<String>) -> (r: String)
    ensures
        r@ == joined(texts(parts@)),
{
    proof {
        reveal_strlit(" ");
    }
    let mut r = String::new();
    let mut i: usize = 0;
    while i < parts.len()
        invariant
            i <= parts@.len(),
            " "@ == seq![' '],
            r@ == joined(texts(parts@).take(i as int)),
        decreases parts@.len() - i,
    {
        if i > 0 {
            r.append(" ");
        }
        r.append(parts[i].as_str());
        proof {
            let before = texts(parts@).take(i as int);
            let now = texts(parts@).take(i + 1);
            assert(now.drop_last() =~= before);
            assert(now.last() == parts@[i as int]@);
            if i == 0 {
                assert(r@ =~= now[0]);
            }
        }
        i += 1;
    }
    assert(texts(parts@).take(i as int) =~= texts(parts@));
    r
}

/// The value of the `content-security-policy` header that lists `domains`.
pub fn csp_header_value(domains: &Vec<String>) -> (r: String)
    ensures
        r@ == csp_value(texts(domains@)),
{
    proof {
        reveal_strlit(" ");
    }
    let mut r = CSP_BASE.to_owned();
    r.append(" ");
    r.append(join_with_spaces(domains).as_str());
    r
}

/// One discovery keeps a list free of repeats and of the administrative
/// origin, leaves what was listed in its place, and adds at most the origin
/// of what was discovered.
proof fn lemma_collected(list: Seq<Seq<char>>, raw: Option<Seq<char>>)
    requires
        list.no_duplicates(),
        !list.contains(ADMIN_ORIGIN@),
    ensures
        collected(list, raw).no_duplicates(),
        !collected(list, raw).contains(ADMIN_ORIGIN@),
        forall|o: Seq<char>| list.contains(o) ==> #[trigger] collected(list, raw).contains(o),
        forall|o: Seq<char>| #[trigger]
            collected(list, raw).contains(o) ==> list.contains(o) || (raw matches Some(t) && o
                == normalized(t)),
        raw matches Some(t) ==> normalized(t) == ADMIN_ORIGIN@ || collected(list, raw).contains(
            normalized(t),
        ),
{
    let after = collected(list, raw);
    if after != list {
        let origin = normalized(raw->Some_0);
        assert(after[list.len() as int] == origin);
        assert forall|o: Seq<char>| list.contains(o) implies #[trigger] after.contains(o) by {
            let i = choose|i: int| 0 <= i < list.len() && list[i] == o;
            assert(after[i] == o);
        }
        assert forall|o: Seq<char>| #[trigger] after.contains(o) implies list.contains(o) || o
            == origin by {
            let i = choose|i: int| 0 <= i < after.len() && after[i] == o;
            if i < list.len() {
                assert(list[i] == o);
            }
        }
    }
}

/// The policy lists no origin twice.
pub proof fn lemma_origins_listed_once(
    shop: Option<Seq<char>>,
    refershop: Option<Seq<char>>,
    apipathshop: Option<Seq<char>>,
)
    ensures
        csp_origins(shop, refershop, apipathshop).no_duplicates(),
{
    let none = Seq::<Seq<char>>::empty();
    let a = collected(none, shop);
    let b = collected(a, refershop);
    let c = collected(b, apipathshop);
    lemma_collected(none, shop);
    lemma_collected(a, refershop);
    lemma_collected(b, apipathshop);
    let all = c.push(ADMIN_ORIGIN@);
    assert forall|i: int, j: int| 0 <= i < all.len() && 0 <= j < all.len() && i != j implies all[i]
        != all[j] by {
        if i < c.len() {
            assert(c.contains(all[i]));
        }
        if j < c.len() {
            assert(c.contains(all[j]));
        }
    }
}

/// The administrative origin stands in every policy, and stands last; with
/// no tenant identifier at all, the policy lists it alone.
pub proof fn lemma_admin_origin_listed(
    shop: Option<Seq<char>>,
    refershop: Option<Seq<char>>,
    apipathshop: Option<Seq<char>>,
)
    ensures
        csp_origins(shop, refershop, apipathshop).last() == ADMIN_ORIGIN@,
        csp_origins(shop, refershop, apipathshop).contains(ADMIN_ORIGIN@),
        csp_origins(None, None, None) == seq![ADMIN_ORIGIN@],
        csp_value(csp_origins(None, None, None)) == CSP_BASE@ + seq![' '] + ADMIN_ORIGIN@,
{
    let all = csp_origins(shop, refershop, apipathshop);
    assert(all[all.len() - 1] == ADMIN_ORIGIN@);
    assert(csp_origins(None, None, None) =~= seq![ADMIN_ORIGIN@]);
}

/// The administrative origin begins with the scheme.
pub proof fn lemma_admin_is_origin()
    ensures
        HTTPS_PREFIX@.is_prefix_of(ADMIN_ORIGIN@),
        normalized(ADMIN_ORIGIN@) == ADMIN_ORIGIN@,
{
    reveal_strlit("https://");
    reveal_strlit("https://admin.shopify.com");
    assert(ADMIN_ORIGIN@.subrange(0, 8) =~= HTTPS_PREFIX@);
}

/// Whether `o` is the administrative origin or the origin of one of the
/// three identifiers.
pub open spec fn is_discovered(
    o: Seq<char>,
    shop: Option<Seq<char>>,
    refershop: Option<Seq<char>>,
    apipathshop: Option<Seq<char>>,
) -> bool {
    ||| o == ADMIN_ORIGIN@
    ||| shop is Some && o == normalized(shop->Some_0)
    ||| refershop is Some && o == normalized(refershop->Some_0)
    ||| apipathshop is Some && o == normalized(apipathshop->Some_0)
}

/// The policy lists the origin of every tenant identifier that was
/// discovered, and nothing but these and the administrative origin; each
/// origin it lists begins with the scheme.
pub proof fn lemma_origins_are_the_discovered(
    shop: Option<Seq<char>>,
    refershop: Option<Seq<char>>,
    apipathshop: Option<Seq<char>>,
)
    ensures
        forall|o: Seq<char>| #[trigger]
            csp_origins(shop, refershop, apipathshop).contains(o) <==> is_discovered(
                o,
                shop,
                refershop,
                apipathshop,
            ),
        forall|i: int|
            0 <= i < csp_origins(shop, refershop, apipathshop).len() ==> HTTPS_PREFIX@.is_prefix_of(
                #[trigger] csp_origins(shop, refershop, apipathshop)[i],
            ),
{
    let none = Seq::<Seq<char>>::empty();
    let a = collected(none, shop);
    let b = collected(a, refershop);
    let c = collected(b, apipathshop);
    let all = c.push(ADMIN_ORIGIN@);
    lemma_collected(none, shop);
    lemma_collected(a, refershop);
    lemma_collected(b, apipathshop);
    assert(all[c.len() as int] == ADMIN_ORIGIN@);
    assert forall|o: Seq<char>| #[trigger]
        all.contains(o) <==> is_discovered(o, shop, refershop, apipathshop) by {
        if all.contains(o) {
            let i = choose|i: int| 0 <= i < all.len() && all[i] == o;
            if i < c.len() {
                assert(c.contains(o));
            }
        }
        if c.contains(o) {
            let i = choose|i: int| 0 <= i < c.len() && c[i] == o;
            assert(all[i] == o);
        }
    }
    assert forall|i: int| 0 <= i < all.len() implies HTTPS_PREFIX@.is_prefix_of(
        #[trigger] all[i],
    ) by {
        assert(all.contains(all[i]));
        lemma_admin_is_origin();
        if shop is Some {
            lemma_normalized_is_origin(shop->Some_0);
        }
        if refershop is Some {
            lemma_normalized_is_origin(refershop->Some_0);
        }
        if apipathshop is Some {
            lemma_normalized_is_origin(apipathshop->Some_0);
        }
    }
}

/// When the path's and the referer's identifiers name one origin, the policy
/// lists that origin at exactly one place.
pub proof fn lemma_shared_origin_listed_once(
    shop: Seq<char>,
    refershop: Seq<char>,
    apipathshop: Option<Seq<char>>,
)
    requires
        normalized(shop) == normalized(refershop),
    ensures
        ({
            let origins = csp_origins(Some(shop), Some(refershop), apipathshop);
            &&& origins.contains(normalized(shop))
            &&& forall|i: int, j: int|
                0 <= i < origins.len() && 0 <= j < origins.len() && #[trigger] origins[i]
                    == normalized(shop) && #[trigger] origins[j] == normalized(shop) ==> i == j
        }),
{
    lemma_origins_listed_once(Some(shop), Some(refershop), apipathshop);
    lemma_origins_are_the_discovered(Some(shop), Some(refershop), apipathshop);
}

/// The policy lists at least the administrative origin and at most four
/// origins.
pub proof fn lemma_origins_count(
    shop: Option<Seq<char>>,
    refershop: Option<Seq<char>>,
    apipathshop: Option<Seq<char>>,
)
    ensures
        1 <= csp_origins(shop, refershop, apipathshop).len() <= 4,
{
}

} // verus!
