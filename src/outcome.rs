use vstd::prelude::*;

verus! {

/// What the blocker reported for one request, field for field, as plain values.
pub struct BlockerOutcome {
    pub matched: bool,
    pub important: bool,
    pub redirect: Option<String>,
    pub rewritten_url: Option<String>,
    pub exception: Option<String>,
    pub filter: Option<String>,
}

/// The mathematical value of a `BlockerOutcome`:
/// (matched, important, redirect, rewritten_url, exception, filter).
pub type BlockerView = (
    bool,
    bool,
    Option<Seq<char>>,
    Option<Seq<char>>,
    Option<Seq<char>>,
    Option<Seq<char>>,
);

impl View for BlockerOutcome {
    type V = BlockerView;

    open spec fn view(&self) -> BlockerView {
        (
            self.matched,
            self.important,
            self.redirect.deep_view(),
            self.rewritten_url.deep_view(),
            self.exception.deep_view(),
            self.filter.deep_view(),
        )
    }
}

/// The decision for one request: exactly one category is active.
pub enum MatchResult {
    NoMatch,
    Block { reason: String, important: bool },
    Redirect { target: String },
    Rewrite { new_url: String },
    Exception { reason: String },
}

/// The mathematical value of a `MatchResult`.
pub enum MatchOutcome {
    NoMatch,
    Block { reason: Seq<char>, important: bool },
    Redirect { target: Seq<char> },
    Rewrite { new_url: Seq<char> },
    Exception { reason: Seq<char> },
}

impl View for MatchResult {
    type V = MatchOutcome;

    open spec fn view(&self) -> MatchOutcome {
        match self {
            MatchResult::NoMatch => MatchOutcome::NoMatch,
            MatchResult::Block { reason, important } => MatchOutcome::Block {
                reason: reason@,
                important: *important,
            },
            MatchResult::Redirect { target } => MatchOutcome::Redirect { target: target@ },
            MatchResult::Rewrite { new_url } => MatchOutcome::Rewrite { new_url: new_url@ },
            MatchResult::Exception { reason } => MatchOutcome::Exception { reason: reason@ },
        }
    }
}

/// The text of an optional rule reference, empty when there is none.
pub open spec fn text_or_empty(t: Option<Seq<char>>) -> Seq<char> {
    match t {
        Some(s) => s,
        None => Seq::empty(),
    }
}

/// The five-tier precedence: an important block, then an exception, then a
/// redirect, then a rewrite, then an ordinary block; otherwise no match.
pub open spec fn outcome_of(v: BlockerView) -> MatchOutcome {
    let (_matched, important, redirect, rewritten, exception, filter) = v;
    if important {
        MatchOutcome::Block { reason: text_or_empty(filter), important: true }
    } else if exception is Some {
        MatchOutcome::Exception { reason: exception->0 }
    } else if redirect is Some {
        MatchOutcome::Redirect { target: redirect->0 }
    } else if rewritten is Some {
        MatchOutcome::Rewrite { new_url: rewritten->0 }
    } else if filter is Some {
        MatchOutcome::Block { reason: filter->0, important: false }
    } else {
        MatchOutcome::NoMatch
    }
}

/// Whether an outcome asks the host to stop the load: every category but
/// `NoMatch` and `Exception`.
pub open spec fn stops_load(m: MatchOutcome) -> bool {
    !(m is NoMatch || m is Exception)
}

fn text_of(t: Option<String>) -> (r: String)
    ensures
        r@ == text_or_empty(t.deep_view()),
{
    match t {
        Some(s) => s,
        None => String::new(),
    }
}

impl MatchResult {
    /// Classifies what the blocker reported into one category.
    pub fn from_blocker(b: BlockerOutcome) -> (r: MatchResult)
        ensures
            r@ == outcome_of(b@),
    {
        let BlockerOutcome { matched: _, important, redirect, rewritten_url, exception, filter } = b;
        if important {
            MatchResult::Block { reason: text_of(filter), important: true }
        } else if let Some(reason) = exception {
            MatchResult::Exception { reason }
        } else if let Some(target) = redirect {
            MatchResult::Redirect { target }
        } else if let Some(new_url) = rewritten_url {
            MatchResult::Rewrite { new_url }
        } else if let Some(reason) = filter {
            MatchResult::Block { reason, important: false }
        } else {
            MatchResult::NoMatch
        }
    }

    /// Whether the host should stop the load for this result.
    pub fn should_stop(&self) -> (r: bool)
        ensures
            r == stops_load(self@),
    {
        match self {
            MatchResult::NoMatch => false,
            MatchResult::Exception { .. } => false,
            _ => true,
        }
    }

    pub fn is_block(&self) -> (r: bool)
        ensures
            r == (self@ is Block),
    {
        matches!(self, MatchResult::Block { .. })
    }

    pub fn is_exception(&self) -> (r: bool)
        ensures
            r == (self@ is Exception),
    {
        matches!(self, MatchResult::Exception { .. })
    }

    pub fn is_no_match(&self) -> (r: bool)
        ensures
            r == (self@ is NoMatch),
    {
        matches!(self, MatchResult::NoMatch)
    }
}

} // verus!
