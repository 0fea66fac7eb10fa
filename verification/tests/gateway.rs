use gateway_core::config::{
    api_config_js, backend_base_url, config_body, default_exemptions, default_proxy_prefix,
    health_body, GatewayConfig,
};
use gateway_core::dispatch::{build_upstream_url, plan_request, DispatchPlan, RequestDescriptor};
use gateway_core::headers::{
    blocked_header_names, filter_inbound, filter_outbound, is_forbidden_header, Header, HeaderMap,
};
use gateway_core::query::extract_label;
use gateway_core::respond::{compose, OutgoingResponse, ProxyOutcome, ResponseBody};
use gateway_core::route::{classify, RouteClass};

fn b(s: &str) -> Vec<u8> {
    s.as_bytes().to_vec()
}

fn header_map(pairs: &[(&str, &str)]) -> HeaderMap {
    let mut h = HeaderMap::new();
    for (name, value) in pairs {
        h.push(b(name), b(value));
    }
    h
}

fn pairs(h: &HeaderMap) -> Vec<(Vec<u8>, Vec<u8>)> {
    h.entries
        .iter()
        .map(|e: &Header| (e.name.clone(), e.value.clone()))
        .collect()
}

fn test_config() -> GatewayConfig {
    GatewayConfig::new(
        default_proxy_prefix(),
        default_exemptions(),
        b("http://backend:92"),
    )
}

#[test]
fn exempt_paths_are_local() {
    let prefix = default_proxy_prefix();
    let exemptions = default_exemptions();
    for path in ["/api/health", "/api/config", "/api/logout", "/api/metrics"] {
        assert_eq!(classify(&b(path), &prefix, &exemptions), RouteClass::Local);
    }
}

#[test]
fn paths_outside_prefix_are_local() {
    let prefix = default_proxy_prefix();
    let exemptions = default_exemptions();
    for path in ["/", "/static/js/app.js", "/search.html", "/apix/y", ""] {
        assert_eq!(classify(&b(path), &prefix, &exemptions), RouteClass::Local);
    }
}

#[test]
fn covered_paths_are_proxied() {
    let prefix = default_proxy_prefix();
    let exemptions = default_exemptions();
    for path in ["/api/search", "/api/login", "/api/register", "/api/", "/api/weather"] {
        assert_eq!(classify(&b(path), &prefix, &exemptions), RouteClass::Proxied);
    }
}

#[test]
fn classify_is_idempotent() {
    let prefix = default_proxy_prefix();
    let exemptions = default_exemptions();
    for path in ["/api/search", "/api/health", "/other", ""] {
        let first = classify(&b(path), &prefix, &exemptions);
        let second = classify(&b(path), &prefix, &exemptions);
        assert_eq!(first, second);
    }
}

#[test]
fn blocklist_holds_the_three_hop_by_hop_names() {
    let blocked = blocked_header_names();
    assert_eq!(blocked.len(), 3);
    assert_eq!(blocked[0], b("host"));
    assert_eq!(blocked[1], b("connection"));
    assert_eq!(blocked[2], b("content-length"));
}

#[test]
fn forbidden_names_are_case_insensitive() {
    for name in ["host", "HOST", "Host", "Connection", "CONNECTION", "Content-Length", "content-length"] {
        assert!(is_forbidden_header(&b(name)), "{name} should be blocked");
    }
    for name in ["x-host", "content-type", "accept", "authorization", ""] {
        assert!(!is_forbidden_header(&b(name)), "{name} should pass");
    }
}

#[test]
fn filtering_drops_hop_by_hop_and_keeps_order() {
    let h = header_map(&[
        ("Content-Type", "text/html"),
        ("Host", "gateway"),
        ("X-One", "1"),
        ("Connection", "keep-alive"),
        ("X-One", "2"),
        ("content-length", "42"),
        ("Accept", "*/*"),
    ]);
    let out = filter_outbound(&h);
    assert_eq!(
        pairs(&out),
        vec![
            (b("Content-Type"), b("text/html")),
            (b("X-One"), b("1")),
            (b("X-One"), b("2")),
            (b("Accept"), b("*/*")),
        ]
    );
    let inb = filter_inbound(&h);
    assert_eq!(pairs(&inb), pairs(&out));
}

#[test]
fn filtering_is_idempotent() {
    let h = header_map(&[("Host", "a"), ("X-Two", "2"), ("Connection", "close")]);
    let once = filter_outbound(&h);
    let twice = filter_outbound(&once);
    assert_eq!(pairs(&once), pairs(&twice));
}

#[test]
fn filtering_empty_headers_is_empty() {
    let h = HeaderMap::new();
    assert_eq!(filter_outbound(&h).len(), 0);
}

#[test]
fn upstream_url_appends_query_verbatim() {
    assert_eq!(
        build_upstream_url(&b("http://backend:92"), &b("/api/search"), &b("q=tea&language=en")),
        b("http://backend:92/api/search?q=tea&language=en")
    );
    assert_eq!(
        build_upstream_url(&b("http://backend:92"), &b("/api/about"), &b("")),
        b("http://backend:92/api/about")
    );
}

#[test]
fn proxied_plan_matches_the_original_request() {
    let cfg = test_config();
    let req = RequestDescriptor {
        method: b("POST"),
        path: b("/api/login"),
        query: b("a=1&b=2"),
        headers: header_map(&[("Host", "gateway"), ("Content-Type", "application/json")]),
        body: b("{\"username\": \"u\"}"),
    };
    match plan_request(&cfg, req) {
        DispatchPlan::Proxied { method, url, headers, body } => {
            assert_eq!(method, b("POST"));
            assert_eq!(url, b("http://backend:92/api/login?a=1&b=2"));
            assert_eq!(pairs(&headers), vec![(b("Content-Type"), b("application/json"))]);
            assert_eq!(body, b("{\"username\": \"u\"}"));
        }
        DispatchPlan::Local => panic!("a covered path must be proxied"),
    }
}

#[test]
fn exempt_request_is_planned_local() {
    let cfg = test_config();
    let req = RequestDescriptor {
        method: b("GET"),
        path: b("/api/health"),
        query: b(""),
        headers: HeaderMap::new(),
        body: Vec::new(),
    };
    assert!(matches!(plan_request(&cfg, req), DispatchPlan::Local));
}

#[test]
fn forwarded_outcome_passes_through() {
    let outcome = ProxyOutcome::Forwarded {
        status: 201,
        headers: header_map(&[
            ("Content-Type", "application/json"),
            ("Connection", "keep-alive"),
            ("content-length", "11"),
            ("X-Trace", "abc"),
        ]),
        body: b("{\"ok\":true}"),
    };
    let OutgoingResponse { status, headers, body } = compose(outcome);
    assert_eq!(status, 201);
    assert_eq!(
        pairs(&headers),
        vec![
            (b("Content-Type"), b("application/json")),
            (b("X-Trace"), b("abc")),
        ]
    );
    match body {
        ResponseBody::Streamed(bytes) => assert_eq!(bytes, b("{\"ok\":true}")),
        ResponseBody::InMemory(_) => panic!("a forwarded body is passed through"),
    }
}

#[test]
fn unreachable_upstream_becomes_503_json() {
    let outcome = ProxyOutcome::UpstreamUnavailable { cause: b("Connection refused") };
    let OutgoingResponse { status, headers, body } = compose(outcome);
    assert_eq!(status, 503);
    assert_eq!(pairs(&headers), vec![(b("content-type"), b("application/json"))]);
    match body {
        ResponseBody::InMemory(bytes) => assert_eq!(
            bytes,
            b("{\"error\": \"Backend service unavailable: Connection refused\"}")
        ),
        ResponseBody::Streamed(_) => panic!("a synthesized body is in memory"),
    }
}

#[test]
fn label_comes_from_the_language_parameter() {
    assert_eq!(extract_label(&b("language=en&q=x")), b("en"));
    assert_eq!(extract_label(&b("q=x&language=fr")), b("fr"));
    assert_eq!(extract_label(&b("language=")), b(""));
    assert_eq!(extract_label(&b("language=a=b")), b("a"));
    assert_eq!(extract_label(&b("xlanguage=de&language=it")), b("it"));
}

#[test]
fn missing_language_means_unknown() {
    assert_eq!(extract_label(&b("")), b("unknown"));
    assert_eq!(extract_label(&b("q=x")), b("unknown"));
    assert_eq!(extract_label(&b("language")), b("unknown"));
    assert_eq!(extract_label(&b("&&")), b("unknown"));
}

#[test]
fn label_matches_the_reference_parser() {
    let cases = [
        "language=en&q=x",
        "q=x",
        "",
        "language",
        "language=",
        "a=b&language=fr&c=d",
        "language=a=b",
        "&&language=de",
        "x=1&language",
        "language=en&language=fr",
        "arbitrary string",
    ];
    for q in cases {
        let expected = querystring::querify(q)
            .iter()
            .find(|(k, _)| *k == "language")
            .map(|(_, v)| *v)
            .unwrap_or("unknown");
        assert_eq!(
            extract_label(&b(q)),
            b(expected),
            "query {q:?} should give {expected:?}"
        );
    }
}

#[test]
fn local_bodies_are_exact() {
    assert_eq!(
        health_body(),
        b("{\"status\": \"ok\", \"service\": \"frontend\"}")
    );
    assert_eq!(backend_base_url(&b("92")), b("http://backend:92"));
    assert_eq!(
        config_body(&b("http://backend:92")),
        b("{\"BACKEND_URL\": \"http://backend:92\"}")
    );
    assert_eq!(
        api_config_js(&b("http://backend:92")),
        b("window.BACKEND_URL = 'http://backend:92';\n")
    );
}
