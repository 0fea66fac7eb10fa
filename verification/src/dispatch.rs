//! The gateway dispatcher: from an inbound request to a decision.
//!
//! For every request the dispatcher classifies the path. A local request is
//! handed to the next handler untouched — no metrics, no filtering. A
//! proxied request yields a forwarding plan: the upstream URL with the
//! original query appended verbatim, the original method and body, and the
//! headers that survive the outbound filter. Search requests among them are
//! counted, labeled by the request's language. All state is request-local
//! except the metrics registry the embedder passes in.

use vstd::prelude::*;

use crate::bytes::{append_bytes, bytes_eq, copy_bytes};
use crate::config::GatewayConfig;
use crate::headers::{filter_outbound, spec_filter_headers, HeaderMap};
use crate::metrics::{
    by_language_bytes, by_language_name, search_total_bytes, search_total_name, spec_inc,
    spec_inc_labeled, MetricsRegistry, RegistryModel,
};
use crate::query::{extract_label, spec_label};
use crate::route::{classify, spec_classify, RouteClass};
use vstd::string::StrSliceExecFns;
use vstd::string::StringSliceAdditionalSpecFns;

verus! {

/// One inbound request, as the gateway sees it: transport already stripped,
/// body bytes in hand. Owned by one dispatch, never shared.
pub struct RequestDescriptor {
    pub method: Vec<u8>,
    pub path: Vec<u8>,
    pub query: Vec<u8>,
    pub headers: HeaderMap,
    pub body: Vec<u8>,
}

/// The dispatcher's decision for one request.
pub enum DispatchPlan {
    /// Hand the request to the next local handler, untouched.
    Local,
    /// Forward: send `method` to `url` with `headers` and `body`.
    Proxied { method: Vec<u8>, url: Vec<u8>, headers: HeaderMap, body: Vec<u8> },
}

/// The outbound URL: the upstream base, the original path, and the original
/// query string appended verbatim after `?` when non-empty.
pub open spec fn spec_upstream_url(base: Seq<u8>, path: Seq<u8>, query: Seq<u8>) -> Seq<u8> {
    if query.len() == 0 {
        base + path
    } else {
        base + path + ("?").spec_bytes() + query
    }
}

/// Builds the outbound URL for a request.
pub fn build_upstream_url(base: &Vec<u8>, path: &Vec<u8>, query: &Vec<u8>) -> (r: Vec<u8>)
    ensures
        r@ == spec_upstream_url(base@, path@, query@),
{
    let mut r = copy_bytes(base);
    append_bytes(&mut r, path);
    if query.len() > 0 {
        let q = ("?").as_bytes_vec();
        append_bytes(&mut r, &q);
        append_bytes(&mut r, query);
        assert(r@ =~= spec_upstream_url(base@, path@, query@));
    } else {
        assert(r@ =~= spec_upstream_url(base@, path@, query@));
    }
    r
}

/// Decides a request's fate.
///
/// The plan is `Local` exactly when the classifier says so. A proxied plan
/// carries the original method and body bytes verbatim, the upstream URL
/// built from the original path and query, and the headers that survive the
/// outbound filter.
pub fn plan_request(cfg: &GatewayConfig, req: RequestDescriptor) -> (p: DispatchPlan)
    ensures
        (p is Local) == (spec_classify(req.path@, cfg@.proxy_prefix, cfg@.exemptions)
            is Local),
        (p matches DispatchPlan::Proxied { method, url, headers, body } ==> method@ == req.method@
            && url@ == spec_upstream_url(cfg@.upstream_base, req.path@, req.query@) && headers@
            == spec_filter_headers(req.headers@) && body@ == req.body@),
{
    match classify(&req.path, &cfg.proxy_prefix, &cfg.exemptions) {
        RouteClass::Local => DispatchPlan::Local,
        RouteClass::Proxied => {
            let url = build_upstream_url(&cfg.upstream_base, &req.path, &req.query);
            let headers = filter_outbound(&req.headers);
            DispatchPlan::Proxied { method: req.method, url, headers, body: req.body }
        },
    }
}

/// The one metrics-relevant route: the search endpoint.
pub open spec fn search_path() -> Seq<u8> {
    ("/api/search").spec_bytes()
}

/// What dispatching a request does to the metrics registry: a proxied
/// search request bumps the search counter and the language bucket its
/// query names (`unknown` when it names none); every other request leaves
/// the registry alone.
pub open spec fn spec_record_search(
    m: RegistryModel,
    cls: RouteClass,
    path: Seq<u8>,
    query: Seq<u8>,
) -> RegistryModel {
    if cls is Proxied && path == search_path() {
        spec_inc_labeled(spec_inc(m, search_total_name()), by_language_name(), spec_label(query))
    } else {
        m
    }
}

/// Counts a request if and only if it is a proxied search request.
pub fn record_search_metrics(
    reg: &mut MetricsRegistry,
    cfg: &GatewayConfig,
    path: &Vec<u8>,
    query: &Vec<u8>,
)
    ensures
        final(reg)@ == spec_record_search(
            old(reg)@,
            spec_classify(path@, cfg@.proxy_prefix, cfg@.exemptions),
            path@,
            query@,
        ),
{
    let cls = classify(path, &cfg.proxy_prefix, &cfg.exemptions);
    let proxied = match cls {
        RouteClass::Proxied => true,
        RouteClass::Local => false,
    };
    let sp = ("/api/search").as_bytes_vec();
    if proxied && bytes_eq(path, &sp) {
        let total = search_total_bytes();
        reg.increment(&total);
        let label = extract_label(query);
        let by_lang = by_language_bytes();
        reg.increment_labeled(&by_lang, &label);
    }
}

/// `n` requests recorded one after the other, all alike.
pub open spec fn spec_record_search_n(
    m: RegistryModel,
    cls: RouteClass,
    path: Seq<u8>,
    query: Seq<u8>,
    n: nat,
) -> RegistryModel
    decreases n,
{
    if n == 0 {
        m
    } else {
        spec_record_search(spec_record_search_n(m, cls, path, query, (n - 1) as nat), cls, path, query)
    }
}

/// Law: a request that is not a proxied search request leaves the registry
/// exactly as it was.
pub proof fn lemma_non_search_untouched(
    m: RegistryModel,
    cls: RouteClass,
    path: Seq<u8>,
    query: Seq<u8>,
)
    requires
        !(cls is Proxied) || path != search_path(),
    ensures
        spec_record_search(m, cls, path, query) == m,
{
}

/// Law: `n` proxied search requests carrying the same language raise the
/// search counter by exactly `n` and that language's bucket by exactly `n`,
/// as long as both stay below the numeric ceiling.
pub proof fn lemma_search_metrics_add_up(
    m: RegistryModel,
    cls: RouteClass,
    path: Seq<u8>,
    query: Seq<u8>,
    n: nat,
    ci: int,
    vi: int,
    ei: int,
)
    requires
        cls is Proxied,
        path == search_path(),
        0 <= ci < m.counters.len(),
        m.counters[ci].name == search_total_name(),
        m.counters[ci].value + n <= u64::MAX,
        0 <= vi < m.vectors.len(),
        m.vectors[vi].name == by_language_name(),
        0 <= ei < m.vectors[vi].entries.len(),
        m.vectors[vi].entries[ei].label == spec_label(query),
        m.vectors[vi].entries[ei].value + n <= u64::MAX,
    ensures
        spec_record_search_n(m, cls, path, query, n).counters.len() == m.counters.len(),
        spec_record_search_n(m, cls, path, query, n).counters[ci].name == m.counters[ci].name,
        spec_record_search_n(m, cls, path, query, n).counters[ci].value == m.counters[ci].value
            + n,
        spec_record_search_n(m, cls, path, query, n).vectors.len() == m.vectors.len(),
        spec_record_search_n(m, cls, path, query, n).vectors[vi].name == m.vectors[vi].name,
        spec_record_search_n(m, cls, path, query, n).vectors[vi].entries.len()
            == m.vectors[vi].entries.len(),
        spec_record_search_n(m, cls, path, query, n).vectors[vi].entries[ei].label
            == m.vectors[vi].entries[ei].label,
        spec_record_search_n(m, cls, path, query, n).vectors[vi].entries[ei].value
            == m.vectors[vi].entries[ei].value + n,
    decreases n,
{
    if n > 0 {
        lemma_search_metrics_add_up(m, cls, path, query, (n - 1) as nat, ci, vi, ei);
        let prev = spec_record_search_n(m, cls, path, query, (n - 1) as nat);
        let bumped = spec_inc(prev, search_total_name());
        assert(spec_record_search_n(m, cls, path, query, n) == spec_inc_labeled(
            bumped,
            by_language_name(),
            spec_label(query),
        ));
        assert(bumped.counters[ci].value == prev.counters[ci].value + 1);
        assert(bumped.vectors == prev.vectors);
        assert(crate::metrics::has_label(bumped.vectors[vi].entries, spec_label(query)));
        assert(spec_inc_labeled(bumped, by_language_name(), spec_label(query)).counters
            == bumped.counters);
        assert(spec_inc_labeled(
            bumped,
            by_language_name(),
            spec_label(query),
        ).vectors[vi].entries[ei].value == crate::metrics::bump(
            bumped.vectors[vi].entries[ei].value,
        ));
    }
}


/// Law: `n` proxied search requests carrying a language nobody searched in
/// before raise the search counter by exactly `n` and open that language's
/// bucket, which then stands at exactly `n`.
pub proof fn lemma_search_metrics_fresh_label(
    m: RegistryModel,
    cls: RouteClass,
    path: Seq<u8>,
    query: Seq<u8>,
    n: nat,
    ci: int,
    vi: int,
)
    requires
        cls is Proxied,
        path == search_path(),
        0 <= ci < m.counters.len(),
        m.counters[ci].name == search_total_name(),
        m.counters[ci].value + n <= u64::MAX,
        0 <= vi < m.vectors.len(),
        m.vectors[vi].name == by_language_name(),
        !crate::metrics::has_label(m.vectors[vi].entries, spec_label(query)),
        1 <= n <= u64::MAX,
    ensures
        spec_record_search_n(m, cls, path, query, n).counters.len() == m.counters.len(),
        spec_record_search_n(m, cls, path, query, n).counters[ci].value == m.counters[ci].value
            + n,
        spec_record_search_n(m, cls, path, query, n).vectors.len() == m.vectors.len(),
        spec_record_search_n(m, cls, path, query, n).vectors[vi].entries.len()
            == m.vectors[vi].entries.len() + 1,
        spec_record_search_n(m, cls, path, query, n).vectors[vi].entries.last().label
            == spec_label(query),
        spec_record_search_n(m, cls, path, query, n).vectors[vi].entries.last().value == n,
    decreases n,
{
    let label = spec_label(query);
    let m1 = spec_record_search(m, cls, path, query);
    let bumped = spec_inc(m, search_total_name());
    assert(m1 == spec_inc_labeled(bumped, by_language_name(), label));
    assert(bumped.vectors == m.vectors);
    assert(m1.counters == bumped.counters);
    assert(bumped.counters[ci].value == m.counters[ci].value + 1);
    let ei = m.vectors[vi].entries.len() as int;
    assert(m1.vectors[vi].entries == m.vectors[vi].entries.push(
        crate::metrics::LabelModel { label, value: 1 },
    ));
    assert(m1.vectors[vi].entries[ei].label == label);
    assert(m1.vectors[vi].entries[ei].value == 1);
    lemma_search_metrics_add_up(m1, cls, path, query, (n - 1) as nat, ci, vi, ei);
    assert(spec_record_search_n(m1, cls, path, query, (n - 1) as nat) == spec_record_search_n(
        m,
        cls,
        path,
        query,
        n,
    )) by {
        lemma_record_search_n_shift(m, cls, path, query, (n - 1) as nat);
    }
}

/// Recording once and then `k` more times is recording `k + 1` times.
proof fn lemma_record_search_n_shift(
    m: RegistryModel,
    cls: RouteClass,
    path: Seq<u8>,
    query: Seq<u8>,
    k: nat,
)
    ensures
        spec_record_search_n(spec_record_search(m, cls, path, query), cls, path, query, k)
            == spec_record_search_n(m, cls, path, query, (k + 1) as nat),
    decreases k,
{
    let m1 = spec_record_search(m, cls, path, query);
    if k == 0 {
        assert(spec_record_search_n(m, cls, path, query, 1) == spec_record_search(
            spec_record_search_n(m, cls, path, query, 0),
            cls,
            path,
            query,
        ));
    } else {
        lemma_record_search_n_shift(m, cls, path, query, (k - 1) as nat);
        assert(spec_record_search_n(m1, cls, path, query, k) == spec_record_search(
            spec_record_search_n(m1, cls, path, query, (k - 1) as nat),
            cls,
            path,
            query,
        ));
        assert(spec_record_search_n(m, cls, path, query, (k + 1) as nat) == spec_record_search(
            spec_record_search_n(m, cls, path, query, k),
            cls,
            path,
            query,
        ));
    }
}


} // verus!
