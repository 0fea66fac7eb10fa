//! Verified core of an HTTP gateway: a route classifier that decides whether a
//! request is answered locally or forwarded upstream, a header policy that
//! strips hop-by-hop headers in both directions, a metrics registry with a
//! text exposition format, an upstream URL builder, and a response composer
//! that turns an upstream outcome into the client-visible response.
//!
//! The library is transport-agnostic: it works on plain bytes and leaves the
//! actual HTTP I/O to its embedder.

pub mod bytes;
pub mod config;
pub mod dispatch;
pub mod headers;
pub mod metrics;
pub mod query;
pub mod respond;
pub mod route;

use vstd::prelude::*;

verus! {

/// A user account record, as the deployment's backend holds it. The gateway
/// itself never reads one; the type is shared so both tiers speak of the
/// same shape.
pub struct User {
    pub id: i64,
    pub username: String,
    pub email: String,
    pub password: String,
}

} // verus!
