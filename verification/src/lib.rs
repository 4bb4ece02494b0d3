//! Per-exchange header logic of a proxy filter that lets a tenant's origin
//! frame the response.
//!
//! The request phase finds tenant identifiers in the query strings of the
//! request path and of the `referer` header; the response phase turns the
//! identifiers into a `content-security-policy` header with a
//! `frame-ancestors` directive. The host calls stay with the embedding crate:
//! this library maps plain values to plain values.

pub mod csp;
pub mod headers;
pub mod origin;
pub mod percent;
pub mod phase;
pub mod query;
pub mod store;
