//! Response composition: one outgoing response type for both outcomes of a
//! forward.
//!
//! A successful round-trip passes the upstream's status and body through
//! untouched and filters its headers; a transport failure becomes the
//! gateway's single synthesized error: status 503 with a small JSON body
//! naming the cause. Composition is pure — the same outcome always yields
//! the same response.

use vstd::prelude::*;

use crate::bytes::append_bytes;
use crate::headers::{filter_inbound, spec_filter_headers, HeaderMap};
use vstd::string::StrSliceExecFns;
use vstd::string::StringSliceAdditionalSpecFns;

verus! {

/// The status code of the synthesized error response.
pub const SERVICE_UNAVAILABLE: u16 = 503;

/// What one forward attempt came to: a response, or a transport failure
/// with a human-readable cause.
pub enum ProxyOutcome {
    /// The upstream answered: its status, its headers before any filtering,
    /// and its body bytes.
    Forwarded { status: u16, headers: HeaderMap, body: Vec<u8> },
    /// The upstream could not be reached: connection refused, timeout,
    /// reset, or an unreadable answer.
    UpstreamUnavailable { cause: Vec<u8> },
}

/// A response body is either synthesized in memory by the gateway or passed
/// through from the upstream, where the embedder may stream it.
pub enum ResponseBody {
    /// Bytes the gateway produced itself.
    InMemory(Vec<u8>),
    /// Bytes arriving from the upstream, delivered in order.
    Streamed(Vec<u8>),
}

/// The client-visible response.
pub struct OutgoingResponse {
    pub status: u16,
    pub headers: HeaderMap,
    pub body: ResponseBody,
}

/// The synthesized error body: a JSON object whose `error` key names the
/// cause of the failed forward, and nothing else.
pub open spec fn unavailable_body(cause: Seq<u8>) -> Seq<u8> {
    ("{\"error\": \"Backend service unavailable: ").spec_bytes() + cause + ("\"}").spec_bytes()
}

/// Builds the synthesized error body for a cause.
pub fn unavailable_body_bytes(cause: &Vec<u8>) -> (r: Vec<u8>)
    ensures
        r@ == unavailable_body(cause@),
{
    let mut r = ("{\"error\": \"Backend service unavailable: ").as_bytes_vec();
    append_bytes(&mut r, cause);
    let tail = ("\"}").as_bytes_vec();
    append_bytes(&mut r, &tail);
    assert(r@ =~= unavailable_body(cause@));
    r
}

/// Turns the outcome of a forward into the client-visible response.
///
/// A forwarded outcome keeps its status code and body bytes exactly and
/// carries its headers through the inbound filter; an unreachable upstream
/// becomes status 503 with content type `application/json` and the
/// synthesized error body. Idempotent over equal outcomes: the result is a
/// function of the outcome alone.
pub fn compose(outcome: ProxyOutcome) -> (r: OutgoingResponse)
    ensures
        (outcome matches ProxyOutcome::Forwarded { status, headers, body } ==> r.status == status
            && r.headers@ == spec_filter_headers(headers@) && (r.body matches
        ResponseBody::Streamed(b) && b@ == body@)),
        (outcome matches ProxyOutcome::UpstreamUnavailable { cause } ==> r.status == 503
            && r.headers@ == seq![
            (("content-type").spec_bytes(), ("application/json").spec_bytes()),
        ] && (r.body matches ResponseBody::InMemory(b) && b@ == unavailable_body(cause@))),
{
    match outcome {
        ProxyOutcome::Forwarded { status, headers, body } => {
            let filtered = filter_inbound(&headers);
            OutgoingResponse { status, headers: filtered, body: ResponseBody::Streamed(body) }
        },
        ProxyOutcome::UpstreamUnavailable { cause } => {
            let b = unavailable_body_bytes(&cause);
            let mut headers = HeaderMap::new();
            headers.push(("content-type").as_bytes_vec(), ("application/json").as_bytes_vec());
            assert(headers@ =~= seq![
                (("content-type").spec_bytes(), ("application/json").spec_bytes()),
            ]);
            OutgoingResponse {
                status: SERVICE_UNAVAILABLE,
                headers,
                body: ResponseBody::InMemory(b),
            }
        },
    }
}

} // verus!
