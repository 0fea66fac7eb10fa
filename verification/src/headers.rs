//! Header policy: which headers may cross the gateway boundary.
//!
//! The gateway forwards a request's headers upstream and a response's headers
//! back to the client, except for a fixed blocklist of hop-by-hop names
//! (`Host`, `Connection`, `Content-Length`) that belong to one transport leg
//! only and are recomputed by the transport on the other side. Filtering is
//! deterministic, order-preserving and multiplicity-preserving, and header
//! names are matched without regard to ASCII case.

use vstd::prelude::*;

use crate::bytes::{bytes_eq_ignore_case, copy_bytes, lower_bytes};
use vstd::string::StrSliceExecFns;
use vstd::string::StringSliceAdditionalSpecFns;

verus! {

/// One HTTP header: a name and a value, both raw bytes.
pub struct Header {
    pub name: Vec<u8>,
    pub value: Vec<u8>,
}

impl View for Header {
    type V = (Seq<u8>, Seq<u8>);

    open spec fn view(&self) -> (Seq<u8>, Seq<u8>) {
        (self.name@, self.value@)
    }
}

/// An ordered header multimap: duplicates allowed, order meaningful.
pub struct HeaderMap {
    pub entries: Vec<Header>,
}

impl View for HeaderMap {
    type V = Seq<(Seq<u8>, Seq<u8>)>;

    open spec fn view(&self) -> Seq<(Seq<u8>, Seq<u8>)> {
        self.entries@.map_values(|h: Header| h@)
    }
}

impl HeaderMap {
    /// An empty header map.
    pub fn new() -> (r: HeaderMap)
        ensures
            r@ == Seq::<(Seq<u8>, Seq<u8>)>::empty(),
    {
        let r = HeaderMap { entries: Vec::new() };
        assert(r@ =~= Seq::<(Seq<u8>, Seq<u8>)>::empty());
        r
    }

    /// Appends a header at the end of the map.
    pub fn push(&mut self, name: Vec<u8>, value: Vec<u8>)
        ensures
            final(self)@ == old(self)@.push((name@, value@)),
    {
        let ghost before = self@;
        self.entries.push(Header { name, value });
        assert(self@ =~= before.push((self.entries@.last().name@,
            self.entries@.last().value@)));
    }

    /// Number of headers in the map.
    pub fn len(&self) -> (n: usize)
        ensures
            n == self@.len(),
    {
        self.entries.len()
    }
}

/// The `Host` header name.
pub open spec fn host_name() -> Seq<u8> {
    ("host").spec_bytes()
}

/// The `Connection` header name.
pub open spec fn connection_name() -> Seq<u8> {
    ("connection").spec_bytes()
}

/// The `Content-Length` header name.
pub open spec fn content_length_name() -> Seq<u8> {
    ("content-length").spec_bytes()
}

/// A name is blocked when it equals one of the three hop-by-hop names up to
/// ASCII case.
pub open spec fn forbidden_header(name: Seq<u8>) -> bool {
    ||| lower_bytes(name) == lower_bytes(host_name())
    ||| lower_bytes(name) == lower_bytes(connection_name())
    ||| lower_bytes(name) == lower_bytes(content_length_name())
}

/// The blocklist as data, so the policy can be inspected and tested on its
/// own: exactly the three hop-by-hop names.
pub fn blocked_header_names() -> (r: Vec<Vec<u8>>)
    ensures
        r@.len() == 3,
        r@[0]@ == host_name(),
        r@[1]@ == connection_name(),
        r@[2]@ == content_length_name(),
{
    let mut r: Vec<Vec<u8>> = Vec::new();
    r.push(("host").as_bytes_vec());
    r.push(("connection").as_bytes_vec());
    r.push(("content-length").as_bytes_vec());
    r
}

/// Decides whether a header name is on the blocklist, without regard to
/// ASCII case.
pub fn is_forbidden_header(name: &Vec<u8>) -> (r: bool)
    ensures
        r == forbidden_header(name@),
{
    let blocked = blocked_header_names();
    let mut i: usize = 0;
    let n = blocked.len();
    while i < n
        invariant
            n == blocked@.len() == 3,
            blocked@[0]@ == host_name(),
            blocked@[1]@ == connection_name(),
            blocked@[2]@ == content_length_name(),
            i <= n,
            forall|j: int| 0 <= j < i ==> lower_bytes(name@) != lower_bytes(#[trigger] blocked@[j]@),
        decreases n - i,
    {
        if bytes_eq_ignore_case(name, &blocked[i]) {
            return true;
        }
        i += 1;
    }
    false
}

/// What header filtering keeps: every header whose name is not blocked, in
/// their original order and multiplicity.
pub open spec fn spec_filter_headers(hs: Seq<(Seq<u8>, Seq<u8>)>) -> Seq<(Seq<u8>, Seq<u8>)>
    decreases hs.len(),
{
    if hs.len() == 0 {
        Seq::empty()
    } else {
        let rest = spec_filter_headers(hs.drop_last());
        if forbidden_header(hs.last().0) {
            rest
        } else {
            rest.push(hs.last())
        }
    }
}

/// Copies the headers of `h` whose names are not on the blocklist,
/// preserving order and multiplicity.
pub fn filter_headers(h: &HeaderMap) -> (r: HeaderMap)
    ensures
        r@ == spec_filter_headers(h@),
{
    let mut out = HeaderMap::new();
    let n = h.entries.len();
    let mut i: usize = 0;
    while i < n
        invariant
            n == h.entries@.len(),
            i <= n,
            out@ == spec_filter_headers(h@.subrange(0, i as int)),
        decreases n - i,
    {
        let e = &h.entries[i];
        assert(h@[i as int] == e@);
        assert(h@.subrange(0, i + 1).drop_last() =~= h@.subrange(0, i as int));
        assert(h@.subrange(0, i + 1).last() == h@[i as int]);
        if !is_forbidden_header(&e.name) {
            out.push(copy_bytes(&e.name), copy_bytes(&e.value));
        }
        i += 1;
    }
    assert(h@.subrange(0, n as int) =~= h@);
    out
}

/// Request headers that may travel to the upstream: the blocklist applied in
/// the outbound direction, so in particular the client's own `Host` never
/// reaches the upstream.
pub fn filter_outbound(h: &HeaderMap) -> (r: HeaderMap)
    ensures
        r@ == spec_filter_headers(h@),
{
    filter_headers(h)
}

/// Response headers that may travel back to the client: the blocklist applied
/// in the inbound direction, so no stale `Host`, `Connection` or
/// `Content-Length` from the upstream reaches the client.
pub fn filter_inbound(h: &HeaderMap) -> (r: HeaderMap)
    ensures
        r@ == spec_filter_headers(h@),
{
    filter_headers(h)
}

/// Law: no blocked name survives filtering, in either direction.
pub proof fn lemma_filter_no_forbidden(hs: Seq<(Seq<u8>, Seq<u8>)>)
    ensures
        forall|i: int|
            0 <= i < spec_filter_headers(hs).len() ==> !forbidden_header(
                #[trigger] spec_filter_headers(hs)[i].0,
            ),
    decreases hs.len(),
{
    if hs.len() > 0 {
        lemma_filter_no_forbidden(hs.drop_last());
        let rest = spec_filter_headers(hs.drop_last());
        if !forbidden_header(hs.last().0) {
            assert(spec_filter_headers(hs) == rest.push(hs.last()));
            assert forall|i: int|
                0 <= i < spec_filter_headers(hs).len() implies !forbidden_header(
                spec_filter_headers(hs)[i].0,
            ) by {
                if i < rest.len() {
                    assert(spec_filter_headers(hs)[i] == rest[i]);
                } else {
                    assert(spec_filter_headers(hs)[i] == hs.last());
                }
            }
        }
    }
}

/// Law: a header set that holds no blocked name passes through filtering
/// unchanged.
pub proof fn lemma_filter_clean_identity(hs: Seq<(Seq<u8>, Seq<u8>)>)
    requires
        forall|i: int| 0 <= i < hs.len() ==> !forbidden_header(#[trigger] hs[i].0),
    ensures
        spec_filter_headers(hs) == hs,
    decreases hs.len(),
{
    if hs.len() > 0 {
        assert(forall|i: int|
            0 <= i < hs.drop_last().len() ==> !forbidden_header(
                #[trigger] hs.drop_last()[i].0,
            ));
        lemma_filter_clean_identity(hs.drop_last());
        assert(!forbidden_header(hs.last().0));
        assert(spec_filter_headers(hs) =~= hs);
    } else {
        assert(spec_filter_headers(hs) =~= hs);
    }
}

/// Law: filtering is idempotent — a second pass changes nothing.
pub proof fn lemma_filter_idempotent(hs: Seq<(Seq<u8>, Seq<u8>)>)
    ensures
        spec_filter_headers(spec_filter_headers(hs)) == spec_filter_headers(hs),
{
    lemma_filter_no_forbidden(hs);
    lemma_filter_clean_identity(spec_filter_headers(hs));
}

} // verus!
