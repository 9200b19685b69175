//! The per-request decision and the enable toggle.
use vstd::prelude::*;
use crate::engine::{match_of, CompiledEngine, ResourceRequest};
use crate::outcome::{stops_load, MatchOutcome, MatchResult};

verus! {

/// What the URL parser makes of a text: its serialization and its host, or
/// `None` where the text is not a URL.
pub uninterp spec fn url_parts(s: Seq<char>) -> Option<(Seq<char>, Option<Seq<char>>)>;

/// Relies on url::Url::parse, read back through Url::as_str and Url::host_str.
#[verifier::external_body]
pub(crate) fn parse_url(s: &str) -> (r: Option<(String, Option<String>)>)
    ensures
        match r {
            Some(p) => url_parts(s@) == Some((p.0@, p.1.deep_view())),
            None => url_parts(s@) is None,
        },
{
    match url::Url::parse(s) {
        Ok(u) => {
            let host = match u.host_str() {
                Some(h) => Some(h.to_string()),
                None => None,
            };
            Some((u.as_str().to_string(), host))
        },
        Err(_) => None,
    }
}

/// Why a request went through without a check.
#[derive(Clone, Copy, Debug, PartialEq, Eq, Structural)]
pub enum SkipReason {
    /// The notification carried no URL.
    NoUri,
    /// The URL does not parse.
    UnparsableUrl,
    /// The URL has no host.
    NoHost,
    /// The user switched filtering off.
    Disabled,
    /// No engine could be produced for this session.
    EngineUnavailable,
}

/// What the host engine does with one outbound request.
pub enum InterceptDecision {
    /// Proceed; no check was made.
    Skipped(SkipReason),
    /// Proceed; the check found no match or an exception.
    Allowed(MatchResult),
    /// Stop the load; the check found a block, a redirect or a rewrite.
    Stopped(MatchResult),
}

/// The mathematical value of an `InterceptDecision`.
pub enum InterceptOutcome {
    Skipped(SkipReason),
    Allowed(MatchOutcome),
    Stopped(MatchOutcome),
}

impl View for InterceptDecision {
    type V = InterceptOutcome;

    open spec fn view(&self) -> InterceptOutcome {
        match self {
            InterceptDecision::Skipped(r) => InterceptOutcome::Skipped(*r),
            InterceptDecision::Allowed(m) => InterceptOutcome::Allowed(m@),
            InterceptDecision::Stopped(m) => InterceptOutcome::Stopped(m@),
        }
    }
}

impl InterceptDecision {
    /// Whether the host must stop the current load.
    pub fn stops(&self) -> (r: bool)
        ensures
            r == (self@ is Stopped),
    {
        matches!(self, InterceptDecision::Stopped(_))
    }
}

/// The decision for a request to `uri`, with filtering switched on or off and
/// with the session's engine (its rule corpus), if it has one.
pub open spec fn intercept_of(
    engine: Option<Seq<Seq<char>>>,
    enabled: bool,
    uri: Option<Seq<char>>,
) -> InterceptOutcome {
    match uri {
        None => InterceptOutcome::Skipped(SkipReason::NoUri),
        Some(u) => match url_parts(u) {
            None => InterceptOutcome::Skipped(SkipReason::UnparsableUrl),
            Some((href, host)) => match host {
                None => InterceptOutcome::Skipped(SkipReason::NoHost),
                Some(h) => if !enabled {
                    InterceptOutcome::Skipped(SkipReason::Disabled)
                } else {
                    match engine {
                        None => InterceptOutcome::Skipped(SkipReason::EngineUnavailable),
                        Some(rules) => {
                            let m = match_of(rules, href, h, Seq::empty());
                            if stops_load(m) {
                                InterceptOutcome::Stopped(m)
                            } else {
                                InterceptOutcome::Allowed(m)
                            }
                        },
                    }
                },
            },
        },
    }
}

/// The rule corpus of an optional engine.
pub open spec fn rules_of(engine: Option<&CompiledEngine>) -> Option<Seq<Seq<char>>> {
    match engine {
        Some(e) => Some(e.rule_lines()),
        None => None,
    }
}

/// Handles the host's "about to load" notification for one request: parses
/// the URL, takes its host as the originating domain, and consults the engine
/// only where filtering is on and an engine is ready.
pub fn on_resource_load_started(
    engine: Option<&CompiledEngine>,
    enabled: bool,
    uri: Option<&str>,
) -> (r: InterceptDecision)
    ensures
        r@ == intercept_of(
            rules_of(engine),
            enabled,
            match uri {
                Some(u) => Some(u@),
                None => None,
            },
        ),
{
    let u = match uri {
        None => {
            return InterceptDecision::Skipped(SkipReason::NoUri);
        },
        Some(u) => u,
    };
    let (href, host) = match parse_url(u) {
        None => {
            return InterceptDecision::Skipped(SkipReason::UnparsableUrl);
        },
        Some(parts) => parts,
    };
    let domain = match host {
        None => {
            return InterceptDecision::Skipped(SkipReason::NoHost);
        },
        Some(h) => h,
    };
    if !enabled {
        return InterceptDecision::Skipped(SkipReason::Disabled);
    }
    let e = match engine {
        None => {
            return InterceptDecision::Skipped(SkipReason::EngineUnavailable);
        },
        Some(e) => e,
    };
    let request = ResourceRequest { url: href, source_domain: domain, resource_type: String::new() };
    let result = e.check(&request);
    if result.should_stop() {
        InterceptDecision::Stopped(result)
    } else {
        InterceptDecision::Allowed(result)
    }
}

/// Without an engine no request is ever checked or stopped, whatever the
/// toggle says: filtering fails open.
pub proof fn fail_open_without_engine(enabled: bool, uri: Option<Seq<char>>)
    ensures
        intercept_of(None, enabled, uri) is Skipped,
{
}

/// With filtering switched off no request is stopped, whatever the engine;
/// with it on and an engine that matches nothing, none is stopped either.
pub proof fn toggle_gates_stops(
    engine: Option<Seq<Seq<char>>>,
    enabled: bool,
    uri: Option<Seq<char>>,
)
    requires
        enabled ==> match engine {
            Some(rules) => forall|url: Seq<char>, source: Seq<char>, rtype: Seq<char>|
                #[trigger] match_of(rules, url, source, rtype) is NoMatch,
            None => true,
        },
    ensures
        !(intercept_of(engine, enabled, uri) is Stopped),
{
    match uri {
        Some(u) => match url_parts(u) {
            Some((href, Some(h))) => match engine {
                Some(rules) => {
                    if enabled {
                        assert(match_of(rules, href, h, Seq::empty()) is NoMatch);
                    }
                },
                None => {},
            },
            _ => {},
        },
        None => {},
    }
}

/// What to do with the host's own content-filter facility.
#[derive(Clone, Copy, Debug, PartialEq, Eq, Structural)]
pub enum ContentFilterAction {
    /// Install the compiled filter.
    Install,
    /// Remove all installed filters.
    RemoveAll,
}

/// The host-side action for a flip of the toggle, given the state before it:
/// switching on installs the filter, switching off removes all filters.
pub fn toggle_content_filter(was_enabled: bool) -> (r: ContentFilterAction)
    ensures
        r == (if was_enabled { ContentFilterAction::RemoveAll } else { ContentFilterAction::Install }),
{
    if !was_enabled {
        ContentFilterAction::Install
    } else {
        ContentFilterAction::RemoveAll
    }
}

/// Flips the enable flag and says what the host's filter facility must do.
pub fn toggle_adblock(adblock_enabled: &mut bool) -> (r: ContentFilterAction)
    ensures
        *final(adblock_enabled) == !*old(adblock_enabled),
        r == (if *final(adblock_enabled) {
            ContentFilterAction::Install
        } else {
            ContentFilterAction::RemoveAll
        }),
{
    let current_value = *adblock_enabled;
    *adblock_enabled = !current_value;
    toggle_content_filter(current_value)
}

} // verus!
