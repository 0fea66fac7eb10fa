//! Route classification: serve a request locally or forward it upstream.
//!
//! A path is served locally when it stands in the exemption set exactly, or
//! when it does not begin with the proxy prefix. Every other path is
//! forwarded. Classification is a total, pure function of the path and the
//! configuration; it touches no state and cannot fail.

use vstd::prelude::*;

use crate::bytes::{bytes_eq, is_prefix_of, starts_with};

verus! {

/// The two ways a request can go.
#[derive(PartialEq, Eq, Structural, Clone, Copy, Debug)]
pub enum RouteClass {
    /// Answered by the gateway's own handlers.
    Local,
    /// Forwarded to the upstream service.
    Proxied,
}

/// The classification of `path` under proxy prefix `prefix` and the exact
/// exemption set `exemptions`.
pub open spec fn spec_classify(path: Seq<u8>, prefix: Seq<u8>, exemptions: Seq<Seq<u8>>) -> RouteClass {
    if (exists|j: int| 0 <= j < exemptions.len() && exemptions[j] == path) || !is_prefix_of(
        prefix,
        path,
    ) {
        RouteClass::Local
    } else {
        RouteClass::Proxied
    }
}

/// Classifies a request path against a proxy prefix and an exemption set.
pub fn classify(path: &Vec<u8>, prefix: &Vec<u8>, exemptions: &Vec<Vec<u8>>) -> (r: RouteClass)
    ensures
        r == spec_classify(path@, prefix@, exemptions@.map_values(|e: Vec<u8>| e@)),
{
    let ghost exs = exemptions@.map_values(|e: Vec<u8>| e@);
    let n = exemptions.len();
    let mut i: usize = 0;
    while i < n
        invariant
            n == exemptions@.len(),
            exs == exemptions@.map_values(|e: Vec<u8>| e@),
            i <= n,
            forall|j: int| 0 <= j < i ==> #[trigger] exs[j] != path@,
        decreases n - i,
    {
        if bytes_eq(&exemptions[i], path) {
            assert(exs[i as int] == path@);
            return RouteClass::Local;
        }
        i += 1;
    }
    if starts_with(path, prefix) {
        RouteClass::Proxied
    } else {
        RouteClass::Local
    }
}

/// Law: a path that stands in the exemption set is always classified
/// `Local`, whatever the prefix — such a request is never forwarded.
pub proof fn lemma_exempt_is_local(
    path: Seq<u8>,
    prefix: Seq<u8>,
    exemptions: Seq<Seq<u8>>,
    j: int,
)
    requires
        0 <= j < exemptions.len(),
        exemptions[j] == path,
    ensures
        spec_classify(path, prefix, exemptions) == RouteClass::Local,
{
}

/// Law: a path under the proxy prefix that is not exempt is always
/// classified `Proxied`.
pub proof fn lemma_covered_is_proxied(path: Seq<u8>, prefix: Seq<u8>, exemptions: Seq<Seq<u8>>)
    requires
        is_prefix_of(prefix, path),
        forall|j: int| 0 <= j < exemptions.len() ==> #[trigger] exemptions[j] != path,
    ensures
        spec_classify(path, prefix, exemptions) == RouteClass::Proxied,
{
}

/// Law: classification is pure — two classifications of the same path under
/// the same configuration agree, so repeated calls cannot disagree.
pub proof fn lemma_classify_deterministic(
    path: Seq<u8>,
    prefix: Seq<u8>,
    exemptions: Seq<Seq<u8>>,
    r1: RouteClass,
    r2: RouteClass,
)
    requires
        r1 == spec_classify(path, prefix, exemptions),
        r2 == spec_classify(path, prefix, exemptions),
    ensures
        r1 == r2,
{
}

} // verus!
