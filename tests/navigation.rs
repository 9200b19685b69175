use abrw::engine::CompiledEngine;
use abrw::intercept::{on_resource_load_started, InterceptDecision};
use abrw::navigation::search_entry_activate;
use abrw::outcome::MatchResult;

#[test]
fn empty_entry_loads_nothing() {
    assert_eq!(search_entry_activate(""), None);
}

#[test]
fn url_entry_loads_as_typed() {
    assert_eq!(search_entry_activate("https://example.com/a b"), Some("https://example.com/a b".to_string()));
    assert_eq!(search_entry_activate("file:///tmp/x.html"), Some("file:///tmp/x.html".to_string()));
    assert_eq!(search_entry_activate("http://localhost:8080/"), Some("http://localhost:8080/".to_string()));
}

#[test]
fn domain_entry_gets_https() {
    assert_eq!(search_entry_activate("example.com"), Some("https://example.com".to_string()));
    assert_eq!(search_entry_activate("docs.rs/verus"), Some("https://docs.rs/verus".to_string()));
}

#[test]
fn other_entry_is_a_search() {
    assert_eq!(
        search_entry_activate("rust verus guide"),
        Some("https://duckduckgo.com/?q=rust+verus+guide".to_string())
    );
    assert_eq!(
        search_entry_activate("what is example.com"),
        Some("https://duckduckgo.com/?q=what+is+example.com".to_string())
    );
    assert_eq!(search_entry_activate("é"), Some("https://duckduckgo.com/?q=é".to_string()));
}

#[test]
fn request_url_is_normalised_before_matching() {
    let e = CompiledEngine::from_lines(vec!["||ads.example.com/banner.js".to_string()]);
    let d = on_resource_load_started(Some(&e), true, Some("HTTPS://ADS.EXAMPLE.COM/banner.js"));
    assert!(matches!(d, InterceptDecision::Stopped(MatchResult::Block { .. })));
}
