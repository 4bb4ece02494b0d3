//! The state that one phase of an exchange leaves for the other: tenant
//! identifiers as UTF-8 bytes under three fixed keys.

use vstd::prelude::*;
use vstd::slice::slice_to_vec;
use vstd::utf8::*;

verus! {

/// The keys under which tenant identifiers are kept.
#[derive(Debug, Clone, Copy, PartialEq, Eq)]
pub enum SharedKey {
    /// The `shop` parameter of the request path.
    Shop,
    /// The `shopUrl` parameter of the request path.
    ApiPathShop,
    /// The `shop` parameter of the `referer` header.
    ReferShop,
}

impl SharedKey {
    /// The key as the store spells it.
    pub open spec fn spec_name(self) -> Seq<char> {
        match self {
            SharedKey::Shop => "shop"@,
            SharedKey::ApiPathShop => "apipathshop"@,
            SharedKey::ReferShop => "refershop"@,
        }
    }

    /// The key as the store spells it.
    pub fn name(self) -> (r: &'static str)
        ensures
            r@ == self.spec_name(),
    {
        match self {
            SharedKey::Shop => "shop",
            SharedKey::ApiPathShop => "apipathshop",
            SharedKey::ReferShop => "refershop",
        }
    }
}

/// `std::string::FromUtf8Error`, carried through and never looked into.
#[verifier::external_type_specification]
#[verifier::external_body]
pub struct ExFromUtf8Error(std::string::FromUtf8Error);

/// `String::from_utf8`.
///
/// Trusted: it succeeds exactly on well-formed UTF-8, and then returns the
/// text that the bytes encode.
#[verifier::external_body]
fn string_from_utf8(bytes: Vec<u8>) -> (r: Result<String, std::string::FromUtf8Error>)
    ensures
        r is Ok <==> valid_utf8(bytes@),
        r matches Ok(text) ==> text@ == decode_utf8(bytes@),
{
    String::from_utf8(bytes)
}

/// The text that stored bytes stand for: bytes that are not well-formed
/// UTF-8 count as nothing stored.
pub open spec fn stored_text(stored: Option<Seq<u8>>) -> Option<Seq<char>> {
    match stored {
        Some(bytes) => if valid_utf8(bytes) {
            Some(decode_utf8(bytes))
        } else {
            None
        },
        None => None,
    }
}

/// What `store` holds under `key`, if anything.
pub open spec fn bytes_in(store: Map<SharedKey, Seq<u8>>, key: SharedKey) -> Option<Seq<u8>> {
    if store.contains_key(key) {
        Some(store[key])
    } else {
        None
    }
}

/// The text that `store` holds under `key`.
pub open spec fn text_in(store: Map<SharedKey, Seq<u8>>, key: SharedKey) -> Option<Seq<char>> {
    stored_text(bytes_in(store, key))
}

/// What the store holds under the three keys.
#[derive(Debug, Clone, PartialEq, Eq)]
pub struct SharedData {
    pub shop: Option<Vec<u8>>,
    pub apipathshop: Option<Vec<u8>>,
    pub refershop: Option<Vec<u8>>,
}

impl View for SharedData {
    type V = Map<SharedKey, Seq<u8>>;

    open spec fn view(&self) -> Map<SharedKey, Seq<u8>> {
        Map::new(|key: SharedKey| self.slot(key) is Some, |key: SharedKey| self.slot(key)->Some_0@)
    }
}

impl SharedData {
    /// The field that belongs to `key`.
    pub open spec fn slot(self, key: SharedKey) -> Option<Vec<u8>> {
        match key {
            SharedKey::Shop => self.shop,
            SharedKey::ApiPathShop => self.apipathshop,
            SharedKey::ReferShop => self.refershop,
        }
    }

    /// A store that holds nothing.
    pub fn new() -> (store: Self)
        ensures
            store@ == Map::<SharedKey, Seq<u8>>::empty(),
    {
        let store = SharedData { shop: None, apipathshop: None, refershop: None };
        assert(store@ =~= Map::<SharedKey, Seq<u8>>::empty());
        store
    }

    /// The bytes kept under `key`.
    pub fn get_shared_data(&self, key: SharedKey) -> (r: Option<Vec<u8>>)
        ensures
            match r {
                Some(bytes) => bytes_in(self@, key) == Some(bytes@),
                None => bytes_in(self@, key) is None,
            },
    {
        let slot = match key {
            SharedKey::Shop => &self.shop,
            SharedKey::ApiPathShop => &self.apipathshop,
            SharedKey::ReferShop => &self.refershop,
        };
        match slot {
            Some(bytes) => Some(slice_to_vec(bytes.as_slice())),
            None => None,
        }
    }

    /// Keeps `bytes` under `key`, in place of what was there.
    pub fn set_shared_data(&mut self, key: SharedKey, bytes: Vec<u8>)
        ensures
            final(self)@ == old(self)@.insert(key, bytes@),
    {
        match key {
            SharedKey::Shop => {
                self.shop = Some(bytes);
            },
            SharedKey::ApiPathShop => {
                self.apipathshop = Some(bytes);
            },
            SharedKey::ReferShop => {
                self.refershop = Some(bytes);
            },
        }
        assert(self@ =~= old(self)@.insert(key, bytes@));
    }

    /// The text kept under `key`. Nothing kept, and bytes that are not
    /// well-formed UTF-8, both read as `None`.
    pub fn get_shared_string(&self, key: SharedKey) -> (r: Option<String>)
        ensures
            match r {
                Some(text) => text_in(self@, key) == Some(text@),
                None => text_in(self@, key) is None,
            },
    {
        match self.get_shared_data(key) {
            Some(bytes) => match string_from_utf8(bytes) {
                Ok(text) => Some(text),
                Err(_) => None,
            },
            None => None,
        }
    }

    /// Keeps the UTF-8 bytes of `value` under `key`.
    pub fn set_shared_string(&mut self, key: SharedKey, value: &str)
        ensures
            final(self)@ == old(self)@.insert(key, encode_utf8(value@)),
            text_in(final(self)@, key) == Some(value@),
    {
        proof {
            lemma_text_read_back(value@);
        }
        self.set_shared_data(key, slice_to_vec(value.as_bytes()));
    }
}

/// What was kept as text reads back as the same text.
pub proof fn lemma_text_read_back(text: Seq<char>)
    ensures
        stored_text(Some(encode_utf8(text))) == Some(text),
{
    encode_utf8_valid_utf8(text);
    encode_utf8_decode_utf8(text);
}

} // verus!
