use abrw::engine::{CompiledEngine, ResourceRequest};
use abrw::intercept::{
    on_resource_load_started, toggle_adblock, toggle_content_filter, ContentFilterAction,
    InterceptDecision, SkipReason,
};
use abrw::outcome::MatchResult;
use abrw::rules::FilterSet;
use abrw::session::{merge_fetched, FetchError, FilterSession, Stage, StartupAction};
use abrw::store::{load, read_blob, save, BLOCK_LIST_IDENT};

fn lines(v: &[&str]) -> Vec<String> {
    v.iter().map(|s| s.to_string()).collect()
}

fn engine_of(v: &[&str]) -> CompiledEngine {
    let mut set = FilterSet::new();
    set.add_filters(&lines(v));
    set.compile()
}

fn req(url: &str, domain: &str) -> ResourceRequest {
    ResourceRequest {
        url: url.to_string(),
        source_domain: domain.to_string(),
        resource_type: String::new(),
    }
}

fn kind(m: &MatchResult) -> &'static str {
    match m {
        MatchResult::NoMatch => "none",
        MatchResult::Block { important: true, .. } => "important",
        MatchResult::Block { .. } => "block",
        MatchResult::Redirect { .. } => "redirect",
        MatchResult::Rewrite { .. } => "rewrite",
        MatchResult::Exception { .. } => "exception",
    }
}

fn sample_requests() -> Vec<ResourceRequest> {
    vec![
        req("https://ads.example.com/banner.js", "ads.example.com"),
        req("https://example.com/index.html", "example.com"),
        req("https://tracker.example/allowed.js", "tracker.example"),
        req("https://tracker.example/other.js", "tracker.example"),
        req("https://cdn.example.org/lib.js", "cdn.example.org"),
        req("not a url", "example.com"),
    ]
}

fn kinds(e: &CompiledEngine) -> Vec<&'static str> {
    sample_requests().iter().map(|r| kind(&e.check(r))).collect()
}

#[test]
fn domain_anchor_blocks_only_its_domain() {
    let e = engine_of(&["||ads.example.com^"]);
    let blocked = e.check(&req("https://ads.example.com/banner.js", "ads.example.com"));
    assert!(matches!(blocked, MatchResult::Block { important: false, .. }));
    assert!(blocked.should_stop());
    let clean = e.check(&req("https://example.com/index.html", "example.com"));
    assert!(clean.is_no_match());
    assert!(!clean.should_stop());
}

#[test]
fn exception_rule_allows_its_path() {
    let e = engine_of(&["||tracker.example^", "@@||tracker.example/allowed.js"]);
    let allowed = e.check(&req("https://tracker.example/allowed.js", "tracker.example"));
    assert!(allowed.is_exception());
    assert!(!allowed.should_stop());
    let other = e.check(&req("https://tracker.example/other.js", "tracker.example"));
    assert!(other.is_block());
    assert!(other.should_stop());
}

#[test]
fn important_rule_overrides_exception() {
    let e = engine_of(&["||tracker.example^$important", "@@||tracker.example^"]);
    let r = e.check(&req("https://tracker.example/x.js", "tracker.example"));
    assert!(matches!(r, MatchResult::Block { important: true, .. }));
    assert!(r.should_stop());
}

#[test]
fn removeparam_rule_rewrites() {
    let e = engine_of(&["||example.com^$removeparam=test"]);
    let request = ResourceRequest {
        url: "https://example.com?q=1&test=2#blue".to_string(),
        source_domain: "https://antonok.com".to_string(),
        resource_type: "xhr".to_string(),
    };
    let r = e.check(&request);
    assert!(r.should_stop());
    match r {
        MatchResult::Rewrite { new_url } => assert_eq!(new_url, "https://example.com?q=1#blue"),
        _ => panic!("expected a rewrite"),
    }
}

#[test]
fn malformed_line_is_ignored() {
    let mut list: Vec<String> = (0..49).map(|i| format!("||ad{}.example^", i)).collect();
    let mut with_bad = list.clone();
    with_bad.insert(20, "!!!not-a-rule###".to_string());
    assert_eq!(with_bad.len(), 50);
    let mut a = FilterSet::new();
    a.add_filters(&with_bad);
    let mut b = FilterSet::new();
    b.add_filters(&list);
    assert_eq!(a.len(), 49);
    assert_eq!(a.rules(), b.rules());
    let e = a.compile();
    for i in 0..49 {
        let url = format!("https://ad{}.example/x.js", i);
        let host = format!("ad{}.example", i);
        assert!(e.check(&req(&url, &host)).is_block());
    }
    assert!(e.check(&req("https://ad99.example/x.js", "ad99.example")).is_no_match());
    list.clear();
}

#[test]
fn compiling_twice_gives_the_same_results() {
    let mut set = FilterSet::new();
    set.add_filters(&lines(&["||ads.example.com^", "||tracker.example^", "@@||tracker.example/allowed.js"]));
    let before = set.rules().clone();
    let e1 = set.compile();
    let e2 = set.compile();
    assert_eq!(set.rules(), &before);
    assert_eq!(kinds(&e1), kinds(&e2));
    assert_eq!(kinds(&e1), vec!["block", "none", "exception", "block", "none", "none"]);
}

#[test]
fn merge_order_does_not_matter() {
    let a: Result<Vec<String>, FetchError> = Ok(lines(&["||ads.example.com^", "||tracker.example^"]));
    let b: Result<Vec<String>, FetchError> =
        Ok(lines(&["@@||tracker.example/allowed.js", "||ads.example.com^", "||cdn.example.org^"]));
    let mut ab = FilterSet::new();
    assert!(merge_fetched(&mut ab, &vec![a.clone(), b.clone()]));
    let mut ba = FilterSet::new();
    assert!(merge_fetched(&mut ba, &vec![b, a]));
    assert_eq!(ab.rules(), ba.rules());
    assert_eq!(ab.len(), 4);
    assert_eq!(kinds(&ab.compile()), kinds(&ba.compile()));
}

#[test]
fn failed_fetch_contributes_nothing() {
    let mut set = FilterSet::new();
    let outcomes = vec![
        Err(FetchError::Network),
        Ok(lines(&["||ads.example.com^"])),
        Err(FetchError::Status { code: 404 }),
        Err(FetchError::Decode),
    ];
    assert!(merge_fetched(&mut set, &outcomes));
    assert_eq!(set.rules(), &lines(&["||ads.example.com^"]));
    let mut none = FilterSet::new();
    assert!(!merge_fetched(&mut none, &vec![Err(FetchError::Network)]));
    assert_eq!(none.len(), 0);
}

#[test]
fn rules_are_kept_sorted_and_distinct() {
    let mut set = FilterSet::new();
    set.add_filters(&lines(&["||b.example^", "||a.example^", "||b.example^", "", "||c.example^"]));
    assert_eq!(set.rules(), &lines(&["||a.example^", "||b.example^", "||c.example^"]));
    set.add_filters(&lines(&["||a.example^", "||ab.example^"]));
    assert_eq!(
        set.rules(),
        &lines(&["||a.example^", "||ab.example^", "||b.example^", "||c.example^"])
    );
}

#[test]
fn save_then_load_round_trips() {
    let e = engine_of(&["||ads.example.com^", "||tracker.example^", "@@||tracker.example/allowed.js"]);
    let blob = save(&e).unwrap();
    let loaded = load(Some(&blob)).unwrap();
    assert_eq!(loaded.rules(), e.rules());
    assert_eq!(kinds(&loaded), kinds(&e));
}

#[test]
fn blob_layout_is_exact() {
    let e = CompiledEngine::from_lines(lines(&["ab", "é"]));
    let blob = save(&e).unwrap();
    assert_eq!(
        blob,
        vec![0x41, 0x42, 0x4c, 0x4b, 1, 2, 0, 0, 0, 2, 0, 0, 0, b'a', b'b', 2, 0, 0, 0, 0xc3, 0xa9]
    );
    assert_eq!(read_blob(&blob), Some(lines(&["ab", "é"])));
}

#[test]
fn corrupt_or_missing_blob_is_not_found() {
    assert!(load(None).is_none());
    assert!(load(Some(&[])).is_none());
    let e = CompiledEngine::from_lines(lines(&["ab"]));
    let blob = save(&e).unwrap();
    let mut bad_header = blob.clone();
    bad_header[0] = b'X';
    assert!(load(Some(&bad_header)).is_none());
    let mut trailing = blob.clone();
    trailing.push(0);
    assert!(load(Some(&trailing)).is_none());
    let truncated = &blob[..blob.len() - 1];
    assert!(load(Some(truncated)).is_none());
    let mut bad_utf8 = blob.clone();
    let n = bad_utf8.len();
    bad_utf8[n - 1] = 0xff;
    assert!(read_blob(&bad_utf8).is_none());
    assert_eq!(BLOCK_LIST_IDENT, "blocklist");
}

#[test]
fn interceptor_stops_blocked_requests() {
    let e = engine_of(&["||ads.example.com^"]);
    let d = on_resource_load_started(Some(&e), true, Some("https://ads.example.com/banner.js"));
    assert!(d.stops());
    let d = on_resource_load_started(Some(&e), true, Some("https://example.com/index.html"));
    assert!(matches!(d, InterceptDecision::Allowed(MatchResult::NoMatch)));
    assert!(!d.stops());
}

#[test]
fn interceptor_skips_what_it_cannot_check() {
    let e = engine_of(&["||ads.example.com^"]);
    let d = on_resource_load_started(Some(&e), true, None);
    assert!(matches!(d, InterceptDecision::Skipped(SkipReason::NoUri)));
    let d = on_resource_load_started(Some(&e), true, Some("not a url"));
    assert!(matches!(d, InterceptDecision::Skipped(SkipReason::UnparsableUrl)));
    let d = on_resource_load_started(Some(&e), true, Some("data:text/plain,hello"));
    assert!(matches!(d, InterceptDecision::Skipped(SkipReason::NoHost)));
}

#[test]
fn toggle_off_never_stops() {
    let e = engine_of(&["||ads.example.com^"]);
    let d = on_resource_load_started(Some(&e), false, Some("https://ads.example.com/banner.js"));
    assert!(matches!(d, InterceptDecision::Skipped(SkipReason::Disabled)));
    assert!(!d.stops());
    let empty = engine_of(&[]);
    let d = on_resource_load_started(Some(&empty), true, Some("https://ads.example.com/banner.js"));
    assert!(!d.stops());
}

#[test]
fn toggle_flips_and_installs_or_removes() {
    let mut enabled = true;
    assert_eq!(toggle_adblock(&mut enabled), ContentFilterAction::RemoveAll);
    assert!(!enabled);
    assert_eq!(toggle_adblock(&mut enabled), ContentFilterAction::Install);
    assert!(enabled);
    assert_eq!(toggle_content_filter(false), ContentFilterAction::Install);
    assert_eq!(toggle_content_filter(true), ContentFilterAction::RemoveAll);
}

#[test]
fn total_failure_fails_open() {
    let mut s = FilterSession::new();
    assert!(matches!(s.start(), StartupAction::ReadBlob));
    assert!(matches!(s.on_blob(None), StartupAction::FetchLists));
    let outcomes = vec![Err(FetchError::Network), Err(FetchError::Status { code: 500 })];
    assert!(matches!(s.on_lists(&outcomes), StartupAction::Nothing));
    assert_eq!(s.stage(), Stage::Disabled);
    assert!(s.engine().is_none());
    let d = on_resource_load_started(s.engine(), true, Some("https://ads.example.com/banner.js"));
    assert!(matches!(d, InterceptDecision::Skipped(SkipReason::EngineUnavailable)));
}

#[test]
fn miss_path_fetches_compiles_and_persists() {
    let mut s = FilterSession::new();
    s.start();
    assert!(matches!(s.on_blob(Some(&[1, 2, 3])), StartupAction::FetchLists));
    assert_eq!(s.stage(), Stage::Fetching);
    let outcomes = vec![Ok(lines(&["||ads.example.com^"])), Err(FetchError::Decode)];
    let blob = match s.on_lists(&outcomes) {
        StartupAction::WriteBlob(b) => b,
        _ => panic!("expected a blob to write"),
    };
    assert_eq!(s.stage(), Stage::Persisting);
    assert!(s.engine().is_none());
    s.on_saved(false);
    assert_eq!(s.stage(), Stage::Ready);
    let d = on_resource_load_started(s.engine(), true, Some("https://ads.example.com/banner.js"));
    assert!(d.stops());

    let mut next = FilterSession::new();
    next.start();
    assert!(matches!(next.on_blob(Some(&blob)), StartupAction::Nothing));
    assert_eq!(next.stage(), Stage::Ready);
    assert_eq!(next.engine().unwrap().rules(), &lines(&["||ads.example.com^"]));
}

#[test]
fn events_out_of_turn_change_nothing() {
    let mut s = FilterSession::new();
    assert!(matches!(s.on_blob(None), StartupAction::Nothing));
    assert!(matches!(s.on_lists(&vec![]), StartupAction::Nothing));
    assert_eq!(s.stage(), Stage::Uninitialized);
    s.start();
    assert!(matches!(s.start(), StartupAction::Nothing));
    assert_eq!(s.stage(), Stage::Loading);
}
