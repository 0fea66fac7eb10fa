use gateway_core::config::{default_exemptions, default_proxy_prefix, GatewayConfig};
use gateway_core::dispatch::record_search_metrics;
use gateway_core::metrics::{
    by_language_bytes, http_total_bytes, search_total_bytes, standard_registry, MetricsRegistry,
};

fn b(s: &str) -> Vec<u8> {
    s.as_bytes().to_vec()
}

fn test_config() -> GatewayConfig {
    GatewayConfig::new(
        default_proxy_prefix(),
        default_exemptions(),
        b("http://backend:92"),
    )
}

#[test]
fn standard_registry_starts_at_zero() {
    let reg = standard_registry();
    assert_eq!(reg.counter_value(&http_total_bytes()), Some(0));
    assert_eq!(reg.counter_value(&search_total_bytes()), Some(0));
    assert_eq!(reg.counter_value(&b("no_such_counter")), None);
    assert_eq!(reg.labeled_value(&by_language_bytes(), &b("en")), None);
    assert_eq!(reg.labeled_value(&b("no_such_vector"), &b("en")), None);
}

#[test]
fn increments_add_up() {
    let mut reg = standard_registry();
    for _ in 0..12 {
        reg.increment(&http_total_bytes());
    }
    assert_eq!(reg.counter_value(&http_total_bytes()), Some(12));
    assert_eq!(reg.counter_value(&search_total_bytes()), Some(0));
}

#[test]
fn unregistered_increment_changes_nothing() {
    let mut reg = standard_registry();
    reg.increment(&b("no_such_counter"));
    reg.increment_labeled(&b("no_such_vector"), &b("en"));
    assert_eq!(reg.counter_value(&http_total_bytes()), Some(0));
    assert_eq!(reg.counter_value(&search_total_bytes()), Some(0));
    assert_eq!(reg.counter_value(&b("no_such_counter")), None);
}

#[test]
fn labeled_increments_split_by_label() {
    let mut reg = standard_registry();
    let by_lang = by_language_bytes();
    reg.increment_labeled(&by_lang, &b("en"));
    reg.increment_labeled(&by_lang, &b("fr"));
    reg.increment_labeled(&by_lang, &b("en"));
    assert_eq!(reg.labeled_value(&by_lang, &b("en")), Some(2));
    assert_eq!(reg.labeled_value(&by_lang, &b("fr")), Some(1));
    assert_eq!(reg.labeled_value(&by_lang, &b("de")), None);
}

#[test]
fn search_requests_are_counted() {
    let cfg = test_config();
    let mut reg = standard_registry();
    for _ in 0..5 {
        record_search_metrics(&mut reg, &cfg, &b("/api/search"), &b("q=tea&language=en"));
    }
    assert_eq!(reg.counter_value(&search_total_bytes()), Some(5));
    assert_eq!(reg.labeled_value(&by_language_bytes(), &b("en")), Some(5));
    assert_eq!(reg.counter_value(&http_total_bytes()), Some(0));
}

#[test]
fn unlabeled_search_goes_to_the_unknown_bucket() {
    let cfg = test_config();
    let mut reg = standard_registry();
    record_search_metrics(&mut reg, &cfg, &b("/api/search"), &b("q=tea"));
    record_search_metrics(&mut reg, &cfg, &b("/api/search"), &b(""));
    assert_eq!(reg.counter_value(&search_total_bytes()), Some(2));
    assert_eq!(reg.labeled_value(&by_language_bytes(), &b("unknown")), Some(2));
}

#[test]
fn only_proxied_search_requests_are_counted() {
    let cfg = test_config();
    let mut reg = standard_registry();
    record_search_metrics(&mut reg, &cfg, &b("/api/health"), &b("language=en"));
    record_search_metrics(&mut reg, &cfg, &b("/api/login"), &b("language=en"));
    record_search_metrics(&mut reg, &cfg, &b("/static/x"), &b("language=en"));
    assert_eq!(reg.counter_value(&search_total_bytes()), Some(0));
    assert_eq!(reg.labeled_value(&by_language_bytes(), &b("en")), None);
}

#[test]
fn snapshot_renders_the_exposition_format() {
    let mut reg = MetricsRegistry::new();
    reg.register_counter(b("requests_total"), b("All requests"));
    reg.increment(&b("requests_total"));
    reg.register_counter_vec(b("by_lang"), b("Queries per language"), b("language"));
    reg.increment_labeled(&b("by_lang"), &b("en"));
    reg.increment_labeled(&b("by_lang"), &b("en"));
    reg.increment_labeled(&b("by_lang"), &b("fr"));
    let expected = "# HELP requests_total All requests\n\
                    # TYPE requests_total counter\n\
                    requests_total 1\n\
                    # HELP by_lang Queries per language\n\
                    # TYPE by_lang counter\n\
                    by_lang{language=\"en\"} 2\n\
                    by_lang{language=\"fr\"} 1\n";
    assert_eq!(String::from_utf8(reg.snapshot_text()).unwrap(), expected);
}

#[test]
fn snapshot_renders_multi_digit_values() {
    let mut reg = MetricsRegistry::new();
    reg.register_counter(b("n"), b("h"));
    for _ in 0..1204 {
        reg.increment(&b("n"));
    }
    let text = String::from_utf8(reg.snapshot_text()).unwrap();
    assert_eq!(text, "# HELP n h\n# TYPE n counter\nn 1204\n");
}

#[test]
fn empty_registry_renders_nothing() {
    let reg = MetricsRegistry::new();
    assert_eq!(reg.snapshot_text(), Vec::<u8>::new());
}
