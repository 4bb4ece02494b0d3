//! The two phases of an exchange.
//!
//! The request phase looks for tenant identifiers in the request path and in
//! the `referer` header and keeps what it finds; the response phase reads
//! them back and asks for the policy header. Both let the exchange go on.

use crate::csp::{csp_domains, csp_header_value, csp_origins, csp_value};
use crate::headers::{
    edited, lemma_policy_header_stays, lemma_removed_is_absent, same_name, Header, ResponseEdits,
    CSP_HEADER, FRAME_OPTIONS_HEADER,
};
use crate::query::{parse_query_param, query_param};
use crate::store::{bytes_in, lemma_text_read_back, text_in, SharedData, SharedKey};
use vstd::prelude::*;
use vstd::utf8::*;

verus! {

/// The parameter that names the tenant.
pub const SHOP_PARAM: &'static str = "shop";

/// The parameter by which an API path names the tenant.
pub const SHOP_URL_PARAM: &'static str = "shopUrl";

/// What a phase tells the host to do with the exchange.
#[derive(Debug, Clone, Copy, PartialEq, Eq)]
pub enum Action {
    /// Hand the exchange to the next stage.
    Continue,
    /// Hold the exchange.
    Pause,
}

/// The text of an optional header value.
pub open spec fn header_text(value: Option<&str>) -> Option<Seq<char>> {
    match value {
        Some(s) => Some(s@),
        None => None,
    }
}

/// The decoded value of parameter `name` in the query of `source`, where
/// there is a source.
pub open spec fn param_in(source: Option<Seq<char>>, name: Seq<char>) -> Option<Seq<char>> {
    match source {
        Some(s) => query_param(encode_utf8(s), encode_utf8(name)),
        None => None,
    }
}

/// `store` once `found` was kept under `key`: what is found takes the place
/// of what was there, and where nothing is found the store stays as it was.
pub open spec fn kept(
    store: Map<SharedKey, Seq<u8>>,
    key: SharedKey,
    found: Option<Seq<char>>,
) -> Map<SharedKey, Seq<u8>> {
    match found {
        Some(text) => store.insert(key, encode_utf8(text)),
        None => store,
    }
}

/// `store` after the request phase of an exchange with the given request
/// path and `referer` header.
pub open spec fn after_request(
    store: Map<SharedKey, Seq<u8>>,
    path: Option<Seq<char>>,
    referer: Option<Seq<char>>,
) -> Map<SharedKey, Seq<u8>> {
    let with_shop = kept(store, SharedKey::Shop, param_in(path, SHOP_PARAM@));
    let with_api = kept(with_shop, SharedKey::ApiPathShop, param_in(path, SHOP_URL_PARAM@));
    kept(with_api, SharedKey::ReferShop, param_in(referer, SHOP_PARAM@))
}

/// The policy for what `store` holds.
pub open spec fn policy_of(store: Map<SharedKey, Seq<u8>>) -> Seq<char> {
    csp_value(
        csp_origins(
            text_in(store, SharedKey::Shop),
            text_in(store, SharedKey::ReferShop),
            text_in(store, SharedKey::ApiPathShop),
        ),
    )
}

/// Looks for parameter `name` in `source` and keeps its value under `key`.
fn keep_param(store: &mut SharedData, key: SharedKey, source: &str, name: &str)
    ensures
        final(store)@ == kept(old(store)@, key, param_in(Some(source@), name@)),
{
    match parse_query_param(source, name) {
        Some(value) => {
            store.set_shared_string(key, value.as_str());
        },
        None => {},
    }
}

/// The request phase.
///
/// From the request path it keeps parameter `shop` under `Shop` and
/// parameter `shopUrl` under `ApiPathShop`; from the `referer` header it
/// keeps parameter `shop` under `ReferShop`. A header that is absent and a
/// parameter that is not found leave their key as it was. The exchange
/// always goes on.
pub fn on_http_request_headers(
    store: &mut SharedData,
    path: Option<&str>,
    referer: Option<&str>,
) -> (action: Action)
    ensures
        action == Action::Continue,
        final(store)@ == after_request(old(store)@, header_text(path), header_text(referer)),
{
    match path {
        Some(path) => {
            keep_param(store, SharedKey::Shop, path, SHOP_PARAM);
            keep_param(store, SharedKey::ApiPathShop, path, SHOP_URL_PARAM);
        },
        None => {},
    }
    match referer {
        Some(referer) => {
            keep_param(store, SharedKey::ReferShop, referer, SHOP_PARAM);
        },
        None => {},
    }
    Action::Continue
}

/// The response phase.
///
/// It asks that `X-Frame-Options` be taken out of the response and that one
/// `content-security-policy` header be added, whose value lists the origins
/// of the tenant identifiers in `store` and the administrative origin. The
/// exchange always goes on.
pub fn on_http_response_headers(store: &SharedData) -> (r: (ResponseEdits, Action))
    ensures
        r.1 == Action::Continue,
        r.0.remove@ == FRAME_OPTIONS_HEADER@,
        r.0.add@ == (CSP_HEADER@, policy_of(store@)),
        forall|headers: Seq<(Seq<char>, Seq<char>)>|
            #[trigger] edited(headers, r.0.remove@, r.0.add@) == response_after(headers, store@),
{
    let shop = store.get_shared_string(SharedKey::Shop);
    let refershop = store.get_shared_string(SharedKey::ReferShop);
    let apipathshop = store.get_shared_string(SharedKey::ApiPathShop);
    let domains = csp_domains(shop, refershop, apipathshop);
    let csp = csp_header_value(&domains);
    let edits = ResponseEdits {
        remove: FRAME_OPTIONS_HEADER.to_owned(),
        add: Header { name: CSP_HEADER.to_owned(), value: csp },
    };
    (edits, Action::Continue)
}

/// The headers of a response once the edits of the response phase are done.
pub open spec fn response_after(
    headers: Seq<(Seq<char>, Seq<char>)>,
    store: Map<SharedKey, Seq<u8>>,
) -> Seq<(Seq<char>, Seq<char>)> {
    edited(headers, FRAME_OPTIONS_HEADER@, (CSP_HEADER@, policy_of(store)))
}

/// What the request phase found is what the response phase reads: under each
/// key the text that was found, or else the text that was there before.
pub proof fn lemma_found_is_read_back(
    store: Map<SharedKey, Seq<u8>>,
    path: Option<Seq<char>>,
    referer: Option<Seq<char>>,
)
    ensures
        ({
            let after = after_request(store, path, referer);
            let shop = param_in(path, SHOP_PARAM@);
            let api = param_in(path, SHOP_URL_PARAM@);
            let refer = param_in(referer, SHOP_PARAM@);
            &&& text_in(after, SharedKey::Shop) == if shop is Some {
                shop
            } else {
                text_in(store, SharedKey::Shop)
            }
            &&& text_in(after, SharedKey::ApiPathShop) == if api is Some {
                api
            } else {
                text_in(store, SharedKey::ApiPathShop)
            }
            &&& text_in(after, SharedKey::ReferShop) == if refer is Some {
                refer
            } else {
                text_in(store, SharedKey::ReferShop)
            }
        }),
{
    if param_in(path, SHOP_PARAM@) is Some {
        lemma_text_read_back(param_in(path, SHOP_PARAM@)->Some_0);
    }
    if param_in(path, SHOP_URL_PARAM@) is Some {
        lemma_text_read_back(param_in(path, SHOP_URL_PARAM@)->Some_0);
    }
    if param_in(referer, SHOP_PARAM@) is Some {
        lemma_text_read_back(param_in(referer, SHOP_PARAM@)->Some_0);
    }
}

/// The policy of an exchange that starts on an empty store lists the origins
/// of the parameters of its own request, and the administrative origin.
pub proof fn lemma_policy_of_exchange(path: Option<Seq<char>>, referer: Option<Seq<char>>)
    ensures
        policy_of(after_request(Map::empty(), path, referer)) == csp_value(
            csp_origins(
                param_in(path, SHOP_PARAM@),
                param_in(referer, SHOP_PARAM@),
                param_in(path, SHOP_URL_PARAM@),
            ),
        ),
{
    lemma_found_is_read_back(Map::empty(), path, referer);
}

/// Whatever the request phase puts under a key is well-formed UTF-8: under
/// each key the store holds what it held before, or the bytes of a text.
pub proof fn lemma_request_keeps_text(
    store: Map<SharedKey, Seq<u8>>,
    path: Option<Seq<char>>,
    referer: Option<Seq<char>>,
    key: SharedKey,
)
    ensures
        ({
            let after = bytes_in(after_request(store, path, referer), key);
            after == bytes_in(store, key) || (after is Some && valid_utf8(after->Some_0))
        }),
{
    if param_in(path, SHOP_PARAM@) is Some {
        encode_utf8_valid_utf8(param_in(path, SHOP_PARAM@)->Some_0);
    }
    if param_in(path, SHOP_URL_PARAM@) is Some {
        encode_utf8_valid_utf8(param_in(path, SHOP_URL_PARAM@)->Some_0);
    }
    if param_in(referer, SHOP_PARAM@) is Some {
        encode_utf8_valid_utf8(param_in(referer, SHOP_PARAM@)->Some_0);
    }
}

/// Once the edits of the response phase are done, the response holds no
/// `X-Frame-Options` header, whatever it held before and whatever the store
/// holds, and it ends with the policy header.
pub proof fn lemma_response_without_frame_options(
    headers: Seq<(Seq<char>, Seq<char>)>,
    store: Map<SharedKey, Seq<u8>>,
)
    ensures
        forall|i: int|
            0 <= i < response_after(headers, store).len() ==> !same_name(
                (#[trigger] response_after(headers, store)[i]).0,
                FRAME_OPTIONS_HEADER@,
            ),
        response_after(headers, store).last() == (CSP_HEADER@, policy_of(store)),
{
    lemma_policy_header_stays();
    lemma_removed_is_absent(headers, FRAME_OPTIONS_HEADER@, (CSP_HEADER@, policy_of(store)));
}

} // verus!
