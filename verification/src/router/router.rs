//! The router: the routing rules in force, and the cache of upstreams that
//! destinations were routed to under them.

use vstd::prelude::*;
use crate::router::route_cache::RouteCache;
use crate::router::route_config::{first_match_is, is_first_match, no_match, opt_view, Route, RoutingConfig};

verus! {

/// Where the proxy sends a destination.
#[derive(Debug, Clone, PartialEq, Eq)]
pub enum UpstreamLookup {
    /// A cached upstream.
    Cached(String),
    /// No upstream is cached, and a rule sends the destination to `upstream`,
    /// after running `command` if it has one.
    Routed { upstream: String, command: Option<String> },
    /// No upstream is cached and no rule claims the destination: it is
    /// reached directly.
    Unrouted,
}

/// What a lookup of `destination` gives under the rules `routes` and the
/// cache `cache`: the cached upstream if there is one, else the upstream and
/// command of the first rule that claims it, else nothing.
pub open spec fn lookup_matches(
    routes: <RoutingConfig as View>::V,
    cache: Map<Seq<char>, Seq<char>>,
    destination: Seq<char>,
    r: UpstreamLookup,
) -> bool {
    match r {
        UpstreamLookup::Cached(u) => cache.dom().contains(destination) && u@ == cache[destination],
        UpstreamLookup::Routed { upstream, command } => !cache.dom().contains(destination) && exists|i: int|
            is_first_match(routes, destination, i) && upstream@ == routes[i].1 && opt_view(command) == routes[i].2,
        UpstreamLookup::Unrouted => !cache.dom().contains(destination) && no_match(routes, destination),
    }
}

/// The routing rules in force and the cache of routed destinations.
pub struct Router {
    config: RoutingConfig,
    cache: RouteCache,
}

impl View for Router {
    type V = (<RoutingConfig as View>::V, Map<Seq<char>, Seq<char>>);

    closed spec fn view(&self) -> Self::V {
        (self.config@, self.cache@)
    }
}

impl Router {
    /// A router under `config`, with nothing cached.
    pub fn new(config: RoutingConfig) -> (r: Router)
        ensures
            r@.0 == config@,
            r@.1 == Map::<Seq<char>, Seq<char>>::empty(),
    {
        Router { config, cache: RouteCache::new() }
    }

    /// A copy of the rules in force.
    pub fn config(&self) -> (r: RoutingConfig)
        ensures
            r@ == self@.0,
    {
        self.config.clone()
    }

    /// Puts `config` in force and forgets every cached upstream, which may
    /// have been chosen by the rules it replaces.
    pub fn reload(&mut self, config: RoutingConfig)
        ensures
            final(self)@.0 == config@,
            final(self)@.1 == Map::<Seq<char>, Seq<char>>::empty(),
    {
        self.config = config;
        self.cache.clear();
    }

    /// The upstream cached for `key`, if any.
    pub fn get_from_cache(&self, key: &str) -> (r: Option<String>)
        ensures
            r is Some <==> self@.1.dom().contains(key@),
            r matches Some(u) ==> u@ == self@.1[key@],
    {
        self.cache.get(key)
    }

    /// Caches `upstream` for `key`.
    pub fn add_to_cache(&mut self, key: String, upstream: String)
        ensures
            final(self)@.0 == old(self)@.0,
            final(self)@.1 == old(self)@.1.insert(key@, upstream@),
    {
        self.cache.insert(key, upstream);
    }

    /// Forgets every cached upstream.
    pub fn clear_cache(&mut self)
        ensures
            final(self)@.0 == old(self)@.0,
            final(self)@.1 == Map::<Seq<char>, Seq<char>>::empty(),
    {
        self.cache.clear();
    }

    /// The first rule in force that claims `destination`, if any; the cache is
    /// not consulted.
    pub fn route(&self, destination: &str) -> (r: Option<Route>)
        ensures
            match r {
                Some(route) => first_match_is(self@.0, destination@, route@),
                None => no_match(self@.0, destination@),
            },
    {
        match self.config.first_match(destination) {
            Some(route) => Some(route.clone()),
            None => None,
        }
    }

    /// Where to send `destination`: its cached upstream, else the upstream of
    /// the first rule that claims it, else nowhere.
    pub fn lookup_upstream(&self, destination: &str) -> (r: UpstreamLookup)
        ensures
            lookup_matches(self@.0, self@.1, destination@, r),
    {
        match self.get_from_cache(destination) {
            Some(u) => UpstreamLookup::Cached(u),
            None => match self.config.first_match(destination) {
                Some(route) => {
                    let command = match route.command() {
                        Some(c) => Some(String::from_str(c)),
                        None => None,
                    };
                    UpstreamLookup::Routed { upstream: String::from_str(route.upstream()), command }
                },
                None => UpstreamLookup::Unrouted,
            },
        }
    }
}

/// Once an upstream is cached for a destination, a lookup of that
/// destination gives it, whatever the rules say.
pub proof fn law_cached_upstream_wins(
    routes: <RoutingConfig as View>::V,
    cache: Map<Seq<char>, Seq<char>>,
    destination: Seq<char>,
    upstream: Seq<char>,
    r: UpstreamLookup,
)
    requires
        lookup_matches(routes, cache.insert(destination, upstream), destination, r),
    ensures
        r matches UpstreamLookup::Cached(u) && u@ == upstream,
{
}

/// Caching an upstream for one destination changes no lookup of another.
pub proof fn law_cache_entry_is_local(
    routes: <RoutingConfig as View>::V,
    cache: Map<Seq<char>, Seq<char>>,
    destination: Seq<char>,
    upstream: Seq<char>,
    other: Seq<char>,
    r: UpstreamLookup,
)
    requires
        other != destination,
    ensures
        lookup_matches(routes, cache.insert(destination, upstream), other, r) == lookup_matches(routes, cache, other, r),
{
}

/// After the rules are reloaded nothing is cached, so a lookup follows the
/// new rules alone: the first new rule that claims the destination, or none.
pub proof fn law_reload_follows_new_rules(routes: <RoutingConfig as View>::V, destination: Seq<char>, r: UpstreamLookup)
    requires
        lookup_matches(routes, Map::<Seq<char>, Seq<char>>::empty(), destination, r),
    ensures
        !(r is Cached),
        r is Unrouted <==> no_match(routes, destination),
        r matches UpstreamLookup::Routed { upstream, command } ==> exists|i: int|
            is_first_match(routes, destination, i) && upstream@ == routes[i].1 && opt_view(command) == routes[i].2,
{
    if r is Routed {
        let i = choose|i: int| is_first_match(routes, destination, i);
        assert(!no_match(routes, destination));
    }
}

/// Two lookups of one destination against the same rules and cache agree on
/// the upstream: the first rule that claims a destination is unique.
pub proof fn law_lookup_is_deterministic(
    routes: <RoutingConfig as View>::V,
    cache: Map<Seq<char>, Seq<char>>,
    destination: Seq<char>,
    r1: UpstreamLookup,
    r2: UpstreamLookup,
)
    requires
        lookup_matches(routes, cache, destination, r1),
        lookup_matches(routes, cache, destination, r2),
    ensures
        match (r1, r2) {
            (UpstreamLookup::Cached(a), UpstreamLookup::Cached(b)) => a@ == b@,
            (UpstreamLookup::Routed { upstream: a, command: c }, UpstreamLookup::Routed { upstream: b, command: d }) =>
                a@ == b@ && opt_view(c) == opt_view(d),
            (UpstreamLookup::Unrouted, UpstreamLookup::Unrouted) => true,
            _ => false,
        },
{
    if r1 is Routed && r2 is Routed {
        let i = choose|i: int| is_first_match(routes, destination, i) && r1->upstream@ == routes[i].1 && opt_view(r1->command) == routes[i].2;
        let j = choose|j: int| is_first_match(routes, destination, j) && r2->upstream@ == routes[j].1 && opt_view(r2->command) == routes[j].2;
        if i < j {
            assert(!crate::router::route_config::matches_input(routes[i].0, destination));
        }
        if j < i {
            assert(!crate::router::route_config::matches_input(routes[j].0, destination));
        }
    }
    if r1 is Routed && r2 is Unrouted {
        let i = choose|i: int| is_first_match(routes, destination, i) && r1->upstream@ == routes[i].1;
        assert(!crate::router::route_config::matches_input(routes[i].0, destination));
    }
    if r2 is Routed && r1 is Unrouted {
        let i = choose|i: int| is_first_match(routes, destination, i) && r2->upstream@ == routes[i].1;
        assert(!crate::router::route_config::matches_input(routes[i].0, destination));
    }
}

} // verus!
