//! The compiled, read-only matcher built from a rule corpus, and the query
//! that classifies one request against it.
use vstd::prelude::*;
use crate::outcome::{BlockerOutcome, BlockerView, MatchResult, MatchOutcome, outcome_of, stops_load};

verus! {

#[verifier::external_type_specification]
#[verifier::external_body]
pub struct ExEngine(adblock::Engine);

#[verifier::external_type_specification]
#[verifier::external_body]
pub struct ExRequest(adblock::request::Request);

/// Whether the block-list parser accepts a line as a rule.
pub uninterp spec fn filter_line_accepted(line: Seq<char>) -> bool;

/// Whether the blocker can build a request for a URL.
pub uninterp spec fn request_url_accepted(url: Seq<char>) -> bool;

/// What the blocker built from `rules` reports for a request to `url`, made
/// from `source`, of resource type `rtype`.
pub uninterp spec fn blocker_verdict(
    rules: Seq<Seq<char>>,
    url: Seq<char>,
    source: Seq<char>,
    rtype: Seq<char>,
) -> BlockerView;

/// Relies on adblock::lists::parse_filter (default parse options): whether
/// one line parses as a network or cosmetic rule.
#[verifier::external_body]
pub(crate) fn line_accepted(line: &str) -> (r: bool)
    ensures
        r == filter_line_accepted(line@),
{
    adblock::lists::parse_filter(line, false, adblock::lists::ParseOptions::default()).is_ok()
}

/// A request to check: the candidate URL, the domain it was made from and its
/// resource type (empty when unknown).
pub struct ResourceRequest {
    pub url: String,
    pub source_domain: String,
    pub resource_type: String,
}

/// A request in the blocker's own form, with the text it was built from.
pub struct PreparedRequest {
    request: adblock::request::Request,
    pub url: Ghost<Seq<char>>,
    pub source: Ghost<Seq<char>>,
    pub rtype: Ghost<Seq<char>>,
}

/// Relies on adblock::request::Request::new, which fails exactly when the
/// blocker's URL parser rejects `url`.
#[verifier::external_body]
fn prepare_request(url: &str, source: &str, rtype: &str) -> (r: Option<PreparedRequest>)
    ensures
        r is Some <==> request_url_accepted(url@),
        r is Some ==> r->0.url@ == url@ && r->0.source@ == source@ && r->0.rtype@ == rtype@,
{
    match adblock::request::Request::new(url, source, rtype) {
        Ok(request) => Some(
            PreparedRequest { request, url: Ghost(url@), source: Ghost(source@), rtype: Ghost(rtype@) },
        ),
        Err(_) => None,
    }
}

/// A match-ready structure, derived once from a rule corpus and read-only
/// afterwards. It keeps the lines it was built from.
pub struct CompiledEngine {
    rules: Vec<String>,
    engine: adblock::Engine,
}

impl CompiledEngine {
    /// The rule lines this engine was built from.
    pub closed spec fn rule_lines(&self) -> Seq<Seq<char>> {
        self.rules.deep_view()
    }

    pub fn rules(&self) -> (r: &Vec<String>)
        ensures
            r.deep_view() == self.rule_lines(),
    {
        &self.rules
    }
}

/// Relies on adblock::Engine::from_rules (default parse options): builds the
/// blocker from the lines, skipping those that do not parse.
#[verifier::external_body]
fn engine_from_rules(rules: Vec<String>) -> (r: CompiledEngine)
    ensures
        r.rule_lines() == rules.deep_view(),
{
    let engine = adblock::Engine::from_rules(&rules, adblock::lists::ParseOptions::default());
    CompiledEngine { rules, engine }
}

/// Relies on adblock::Engine::check_network_request: the blocker's report for
/// one request, which depends on the rules and the request alone. An
/// important match carries its filter, and no exception or rewrite.
#[verifier::external_body]
fn engine_check(e: &CompiledEngine, req: &PreparedRequest) -> (r: BlockerOutcome)
    ensures
        r@ == blocker_verdict(e.rule_lines(), req.url@, req.source@, req.rtype@),
        r.important ==> r.filter is Some && r.exception is None && r.rewritten_url is None,
{
    let b = e.engine.check_network_request(&req.request);
    BlockerOutcome {
        matched: b.matched,
        important: b.important,
        redirect: b.redirect,
        rewritten_url: b.rewritten_url,
        exception: b.exception,
        filter: b.filter,
    }
}

/// The outcome of checking a request against the rule corpus `rules`: no
/// match where the blocker cannot build the request, else the classified
/// report of the blocker.
pub open spec fn match_of(
    rules: Seq<Seq<char>>,
    url: Seq<char>,
    source: Seq<char>,
    rtype: Seq<char>,
) -> MatchOutcome {
    if request_url_accepted(url) {
        outcome_of(blocker_verdict(rules, url, source, rtype))
    } else {
        MatchOutcome::NoMatch
    }
}

impl CompiledEngine {
    /// Builds an engine from a sequence of rule lines.
    pub fn from_lines(rules: Vec<String>) -> (r: CompiledEngine)
        ensures
            r.rule_lines() == rules.deep_view(),
    {
        engine_from_rules(rules)
    }

    /// Evaluates one request against the corpus. Pure: nothing is changed.
    pub fn check(&self, request: &ResourceRequest) -> (r: MatchResult)
        ensures
            r@ == match_of(
                self.rule_lines(),
                request.url@,
                request.source_domain@,
                request.resource_type@,
            ),
    {
        match prepare_request(
            request.url.as_str(),
            request.source_domain.as_str(),
            request.resource_type.as_str(),
        ) {
            Some(prepared) => MatchResult::from_blocker(engine_check(self, &prepared)),
            None => MatchResult::NoMatch,
        }
    }
}

/// An important block overrides an exception: where the blocker reports an
/// important match for a request, the outcome is a block that stops the load,
/// whatever exception also matched.
pub proof fn important_overrides_exception(
    rules: Seq<Seq<char>>,
    url: Seq<char>,
    source: Seq<char>,
    rtype: Seq<char>,
)
    requires
        request_url_accepted(url),
        blocker_verdict(rules, url, source, rtype).1,
    ensures
        match_of(rules, url, source, rtype) is Block,
        stops_load(match_of(rules, url, source, rtype)),
{
}

} // verus!
