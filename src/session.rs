//! Start-up of filtering for one session: try the stored corpus, else fetch
//! the lists, compile and store them; the decisions between the outside steps.
use vstd::prelude::*;
use crate::engine::CompiledEngine;
use crate::intercept::intercept_of;
use crate::rules::{accepted_lines, lemma_sorted_unique, strictly_sorted, FilterSet};
use crate::store::{blob_of, fits_blob, load, parse_blob, save};

verus! {

/// Why one list could not be fetched.
#[derive(Clone, Copy, Debug, PartialEq, Eq, Structural)]
pub enum FetchError {
    /// The request did not complete.
    Network,
    /// The server answered with a status other than success.
    Status { code: u16 },
    /// The body could not be read as text.
    Decode,
}

/// The rule lines one fetch contributes: none where it failed.
pub open spec fn outcome_lines(o: Result<Vec<String>, FetchError>) -> Set<Seq<char>> {
    match o {
        Ok(v) => accepted_lines(v.deep_view()),
        Err(_) => Set::empty(),
    }
}

/// The rule lines a batch of fetches contributes.
pub open spec fn fetched_rules(outs: Seq<Result<Vec<String>, FetchError>>) -> Set<Seq<char>>
    decreases outs.len(),
{
    if outs.len() == 0 {
        Set::empty()
    } else {
        fetched_rules(outs.drop_last()) + outcome_lines(outs.last())
    }
}

/// Whether at least one fetch of the batch succeeded.
pub open spec fn any_fetched(outs: Seq<Result<Vec<String>, FetchError>>) -> bool {
    exists|i: int| 0 <= i < outs.len() && #[trigger] outs[i] is Ok
}

/// Adds what a batch of fetches brought to the corpus; a failed fetch adds
/// nothing and does not stop the others. Returns whether any fetch succeeded.
pub fn merge_fetched(set: &mut FilterSet, outcomes: &Vec<Result<Vec<String>, FetchError>>) -> (r: bool)
    requires
        old(set).wf(),
    ensures
        final(set).wf(),
        final(set).rule_set() == old(set).rule_set() + fetched_rules(outcomes@),
        r == any_fetched(outcomes@),
{
    let ghost outs = outcomes@;
    let mut any = false;
    let mut i: usize = 0;
    while i < outcomes.len()
        invariant
            i <= outs.len(),
            outs == outcomes@,
            set.wf(),
            set.rule_set() == old(set).rule_set() + fetched_rules(outs.subrange(0, i as int)),
            any == any_fetched(outs.subrange(0, i as int)),
        decreases outs.len() - i,
    {
        let ghost prefix = outs.subrange(0, i as int);
        let ghost next = outs.subrange(0, i + 1);
        assert(next.drop_last() =~= prefix);
        assert(next.last() == outs[i as int]);
        match &outcomes[i] {
            Ok(lines) => {
                set.add_filters(lines);
                any = true;
                assert(next[i as int] is Ok);
            },
            Err(_) => {
                proof {
                    if any_fetched(next) {
                        let k = choose|k: int| 0 <= k < next.len() && #[trigger] next[k] is Ok;
                        assert(prefix[k] is Ok);
                    }
                }
            },
        }
        assert(set.rule_set() =~= old(set).rule_set() + fetched_rules(next));
        i = i + 1;
    }
    assert(outs.subrange(0, outs.len() as int) =~= outs);
    any
}

/// Where start-up stands.
#[derive(Clone, Copy, Debug, PartialEq, Eq, Structural)]
pub enum Stage {
    Uninitialized,
    /// Waiting for the stored blob.
    Loading,
    /// Waiting for the lists; they are compiled in the step that receives them.
    Fetching,
    /// The engine is ready; waiting for its blob to be written.
    Persisting,
    /// The engine may be queried.
    Ready,
    /// No engine could be produced; every request is allowed.
    Disabled,
}

/// What the caller must do next, outside the library.
pub enum StartupAction {
    Nothing,
    /// Read the blob stored under the fixed key.
    ReadBlob,
    /// Fetch every configured list.
    FetchLists,
    /// Write this blob under the fixed key, replacing the old one whole.
    WriteBlob(Vec<u8>),
}

/// The filtering state of one session.
pub struct FilterSession {
    stage: Stage,
    engine: Option<CompiledEngine>,
}

impl FilterSession {
    pub closed spec fn stage_of(&self) -> Stage {
        self.stage
    }

    /// The rule corpus of the session's engine, if it has one.
    pub closed spec fn engine_rules(&self) -> Option<Seq<Seq<char>>> {
        match self.engine {
            Some(e) => Some(e.rule_lines()),
            None => None,
        }
    }

    /// There is an engine exactly in the stages that follow compilation.
    pub open spec fn wf(&self) -> bool {
        self.engine_rules() is Some <==> (self.stage_of() == Stage::Ready || self.stage_of()
            == Stage::Persisting)
    }

    pub fn new() -> (r: FilterSession)
        ensures
            r.wf(),
            r.stage_of() == Stage::Uninitialized,
    {
        FilterSession { stage: Stage::Uninitialized, engine: None }
    }

    pub fn stage(&self) -> (r: Stage)
        ensures
            r == self.stage_of(),
    {
        self.stage
    }

    /// The engine to query: only once the session is ready.
    pub fn engine(&self) -> (r: Option<&CompiledEngine>)
        requires
            self.wf(),
        ensures
            r is Some <==> self.stage_of() == Stage::Ready,
            r is Some ==> Some(r->0.rule_lines()) == self.engine_rules(),
    {
        if self.stage == Stage::Ready {
            self.engine.as_ref()
        } else {
            None
        }
    }

    /// Starts loading: ask for the stored blob.
    pub fn start(&mut self) -> (r: StartupAction)
        requires
            old(self).wf(),
        ensures
            final(self).wf(),
            old(self).stage_of() == Stage::Uninitialized ==> final(self).stage_of() == Stage::Loading
                && r is ReadBlob,
            old(self).stage_of() != Stage::Uninitialized ==> *final(self) == *old(self) && r is Nothing,
    {
        if self.stage == Stage::Uninitialized {
            self.stage = Stage::Loading;
            StartupAction::ReadBlob
        } else {
            StartupAction::Nothing
        }
    }

    /// The stored blob arrived (or nothing was stored): a well-formed blob
    /// makes the session ready; otherwise the lists must be fetched.
    pub fn on_blob(&mut self, stored: Option<&[u8]>) -> (r: StartupAction)
        requires
            old(self).wf(),
        ensures
            final(self).wf(),
            old(self).stage_of() == Stage::Loading ==> {
                let parsed = match stored {
                    Some(b) => parse_blob(b@),
                    None => None,
                };
                match parsed {
                    Some(rules) => final(self).stage_of() == Stage::Ready && final(self).engine_rules()
                        == Some(rules) && r is Nothing,
                    None => final(self).stage_of() == Stage::Fetching && final(self).engine_rules()
                        is None && r is FetchLists,
                }
            },
            old(self).stage_of() != Stage::Loading ==> *final(self) == *old(self) && r is Nothing,
    {
        if self.stage != Stage::Loading {
            return StartupAction::Nothing;
        }
        match load(stored) {
            Some(engine) => {
                self.engine = Some(engine);
                self.stage = Stage::Ready;
                StartupAction::Nothing
            },
            None => {
                self.engine = None;
                self.stage = Stage::Fetching;
                StartupAction::FetchLists
            },
        }
    }

    /// The fetches finished. Where none succeeded filtering is disabled for
    /// the session. Otherwise the lists are compiled into the engine, which is
    /// then to be stored; where it cannot be stored it is ready at once.
    pub fn on_lists(&mut self, outcomes: &Vec<Result<Vec<String>, FetchError>>) -> (r: StartupAction)
        requires
            old(self).wf(),
        ensures
            final(self).wf(),
            old(self).stage_of() == Stage::Fetching && !any_fetched(outcomes@) ==> final(self).stage_of()
                == Stage::Disabled && r is Nothing,
            old(self).stage_of() == Stage::Fetching && any_fetched(outcomes@) ==> {
                &&& final(self).engine_rules() is Some
                &&& strictly_sorted(final(self).engine_rules()->0)
                &&& final(self).engine_rules()->0.to_set() == fetched_rules(outcomes@)
                &&& fits_blob(final(self).engine_rules()->0) ==> final(self).stage_of()
                    == Stage::Persisting && r is WriteBlob && r->WriteBlob_0@ == blob_of(
                    final(self).engine_rules()->0,
                )
                &&& !fits_blob(final(self).engine_rules()->0) ==> final(self).stage_of()
                    == Stage::Ready && r is Nothing
            },
            old(self).stage_of() != Stage::Fetching ==> *final(self) == *old(self) && r is Nothing,
    {
        if self.stage != Stage::Fetching {
            return StartupAction::Nothing;
        }
        let mut set = FilterSet::new();
        let any = merge_fetched(&mut set, outcomes);
        if !any {
            self.stage = Stage::Disabled;
            return StartupAction::Nothing;
        }
        assert(set.rule_set() =~= fetched_rules(outcomes@));
        let engine = set.compile();
        let saved = save(&engine);
        self.engine = Some(engine);
        match saved {
            Ok(blob) => {
                self.stage = Stage::Persisting;
                StartupAction::WriteBlob(blob)
            },
            Err(_) => {
                self.stage = Stage::Ready;
                StartupAction::Nothing
            },
        }
    }

    /// The blob was written, or writing it failed: either way the engine is
    /// ready; only persistence for the next start is lost on failure.
    pub fn on_saved(&mut self, saved: bool) -> (r: StartupAction)
        requires
            old(self).wf(),
        ensures
            final(self).wf(),
            r is Nothing,
            final(self).engine_rules() == old(self).engine_rules(),
            old(self).stage_of() == Stage::Persisting ==> final(self).stage_of() == Stage::Ready,
            old(self).stage_of() != Stage::Persisting ==> *final(self) == *old(self),
    {
        if self.stage == Stage::Persisting {
            self.stage = Stage::Ready;
        }
        StartupAction::Nothing
    }
}

/// Where the stored corpus and every fetch failed the session is disabled:
/// it has no engine, and every request goes through unchecked.
pub proof fn fail_open_on_total_failure(s: FilterSession, enabled: bool, uri: Option<Seq<char>>)
    requires
        s.wf(),
        s.stage_of() == Stage::Disabled,
    ensures
        s.engine_rules() is None,
        intercept_of(s.engine_rules(), enabled, uri) is Skipped,
{
}

/// Fetching two lists in either order gives the same corpus, so engines
/// compiled from the two give the same outcome for every request.
pub proof fn fetch_order_independent(
    a: Result<Vec<String>, FetchError>,
    b: Result<Vec<String>, FetchError>,
    f_ab: FilterSet,
    f_ba: FilterSet,
)
    requires
        f_ab.wf(),
        f_ba.wf(),
        f_ab.rule_set() == Set::<Seq<char>>::empty() + fetched_rules(seq![a, b]),
        f_ba.rule_set() == Set::<Seq<char>>::empty() + fetched_rules(seq![b, a]),
    ensures
        f_ab@ == f_ba@,
{
    let ab = seq![a, b];
    let ba = seq![b, a];
    assert(ab.drop_last() =~= seq![a]);
    assert(ba.drop_last() =~= seq![b]);
    assert(seq![a].drop_last() =~= Seq::<Result<Vec<String>, FetchError>>::empty());
    assert(seq![b].drop_last() =~= Seq::<Result<Vec<String>, FetchError>>::empty());
    assert(ab.last() == b && ba.last() == a && seq![a].last() == a && seq![b].last() == b);
    assert(fetched_rules(Seq::<Result<Vec<String>, FetchError>>::empty()) == Set::<Seq<char>>::empty());
    assert(fetched_rules(seq![a]) == Set::<Seq<char>>::empty() + outcome_lines(a));
    assert(fetched_rules(seq![b]) == Set::<Seq<char>>::empty() + outcome_lines(b));
    assert(fetched_rules(ab) == fetched_rules(seq![a]) + outcome_lines(b));
    assert(fetched_rules(ba) == fetched_rules(seq![b]) + outcome_lines(a));
    assert(fetched_rules(ab) =~= fetched_rules(ba));
    assert(f_ab.rule_set() =~= f_ba.rule_set());
    lemma_sorted_unique(f_ab@, f_ba@);
}

} // verus!
