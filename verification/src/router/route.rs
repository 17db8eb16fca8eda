//! A routing rule keyed by a single name pattern, compiled at each use.

use vstd::prelude::*;
use crate::router::route_config::{regex_compiles, regex_is_match, RoutePattern};

verus! {

/// Why a rule cannot be applied.
#[derive(Debug, Clone, Copy, PartialEq, Eq, Structural)]
pub enum RouteError {
    /// The rule's pattern is not a regular expression that `Regex::new` accepts.
    InvalidPattern,
}

/// A rule that sends the destinations matching `pattern` to `upstream`.
pub struct Route {
    pattern: String,
    upstream: String,
}

impl View for Route {
    type V = (Seq<char>, Seq<char>);

    closed spec fn view(&self) -> (Seq<char>, Seq<char>) {
        (self.pattern@, self.upstream@)
    }
}

/// What applying the rule with pattern `pattern` to `input` gives: an error
/// when the pattern does not compile, else whether it matches.
pub open spec fn pattern_rule_matches(pattern: Seq<char>, input: Seq<char>) -> Result<bool, RouteError> {
    if regex_compiles(pattern) {
        Ok(regex_is_match(pattern, input))
    } else {
        Err(RouteError::InvalidPattern)
    }
}

impl Route {
    /// A rule from its pattern and upstream.
    pub fn new(pattern: String, upstream: String) -> (r: Route)
        ensures
            r@ == (pattern@, upstream@),
    {
        Route { pattern, upstream }
    }

    /// Compiles the pattern and tests it against `input`.
    pub fn matches(&self, input: &str) -> (r: Result<bool, RouteError>)
        ensures
            r == pattern_rule_matches(self@.0, input@),
    {
        match RoutePattern::new(self.pattern.as_str()) {
            Some(p) => Ok(crate::router::route_config::pattern_matches(&p, input)),
            None => Err(RouteError::InvalidPattern),
        }
    }

    /// The upstream proxy address.
    pub fn upstream(&self) -> (r: &str)
        ensures
            r@ == self@.1,
    {
        self.upstream.as_str()
    }
}

impl Clone for Route {
    fn clone(&self) -> (r: Self)
        ensures
            r@ == self@,
    {
        Route { pattern: self.pattern.clone(), upstream: self.upstream.clone() }
    }
}

} // verus!
