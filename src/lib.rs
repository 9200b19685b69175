//! Request-level content filtering for a desktop browser shell: rule sets
//! compiled from block lists, per-request matching, persistence of the rule
//! corpus, and the decisions around them (interception, toggling, start-up).

pub mod engine;
pub mod intercept;
pub mod navigation;
pub mod ordering;
pub mod outcome;
pub mod rules;
pub mod session;
pub mod settings;
pub mod store;
