//! Routing by name patterns: each rule names one pattern, and the first rule
//! whose pattern matches a destination gives its upstream.

pub mod route;
pub mod route_cache;
pub mod route_config;
pub mod router;

use vstd::prelude::*;

pub use self::route::Route;
use self::route::pattern_rule_matches;

verus! {

/// The pattern rules, in the order in which they are tried.
pub struct RoutingConfig {
    routes: Vec<Route>,
}

impl View for RoutingConfig {
    type V = Seq<(Seq<char>, Seq<char>)>;

    closed spec fn view(&self) -> Self::V {
        self.routes@.map_values(|r: Route| r@)
    }
}

/// Rule `i` is the first whose pattern compiles and matches `input`; the
/// rules before it either do not compile or do not match.
pub open spec fn is_first_pattern_match(routes: Seq<(Seq<char>, Seq<char>)>, input: Seq<char>, i: int) -> bool {
    &&& 0 <= i < routes.len()
    &&& pattern_rule_matches(routes[i].0, input) == Ok::<bool, route::RouteError>(true)
    &&& forall|j: int| 0 <= j < i ==> pattern_rule_matches(#[trigger] routes[j].0, input) != Ok::<bool, route::RouteError>(true)
}

/// `upstream` is the upstream of the first rule that claims `input`.
pub open spec fn pattern_route_is(routes: Seq<(Seq<char>, Seq<char>)>, input: Seq<char>, upstream: Seq<char>) -> bool {
    exists|i: int| is_first_pattern_match(routes, input, i) && upstream == routes[i].1
}

impl RoutingConfig {
    /// Rules to be tried in the given order.
    pub fn new(routes: Vec<Route>) -> (r: RoutingConfig)
        ensures
            r@ == routes@.map_values(|r: Route| r@),
    {
        RoutingConfig { routes }
    }

    /// The rules, in order.
    pub fn routes(&self) -> (r: &Vec<Route>)
        ensures
            r@.map_values(|r: Route| r@) == self@,
    {
        &self.routes
    }
}

/// Routes destinations by the first pattern rule that matches them.
pub struct Router {
    config: RoutingConfig,
}

impl View for Router {
    type V = Seq<(Seq<char>, Seq<char>)>;

    closed spec fn view(&self) -> Self::V {
        self.config@
    }
}

impl Router {
    /// A router over `config`.
    pub fn new(config: RoutingConfig) -> (r: Router)
        ensures
            r@ == config@,
    {
        Router { config }
    }

    /// The upstream of the first rule whose pattern compiles and matches
    /// `destination`; a rule whose pattern does not compile is passed over.
    pub fn route(&self, destination: &str) -> (r: Option<String>)
        ensures
            match r {
                Some(u) => pattern_route_is(self@, destination@, u@),
                None => forall|j: int| 0 <= j < self@.len() ==> pattern_rule_matches(#[trigger] self@[j].0, destination@)
                    != Ok::<bool, route::RouteError>(true),
            },
    {
        let routes = self.config.routes();
        let mut i: usize = 0;
        while i < routes.len()
            invariant
                i <= routes@.len(),
                routes@.map_values(|r: Route| r@) == self@,
                forall|j: int| 0 <= j < i ==> pattern_rule_matches(#[trigger] self@[j].0, destination@)
                    != Ok::<bool, route::RouteError>(true),
            decreases routes@.len() - i,
        {
            let hit = match routes[i].matches(destination) {
                Ok(b) => b,
                Err(_) => false,
            };
            if hit {
                assert(is_first_pattern_match(self@, destination@, i as int));
                return Some(String::from_str(routes[i].upstream()));
            }
            i = i + 1;
        }
        None
    }
}

} // verus!
