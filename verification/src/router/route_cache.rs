//! Remembers which upstream a destination was routed to.

use vstd::prelude::*;
use crate::table::KeyedTable;

verus! {

/// A map from destination names to upstream addresses.
pub struct RouteCache {
    cache: KeyedTable<String>,
}

impl View for RouteCache {
    type V = Map<Seq<char>, Seq<char>>;

    closed spec fn view(&self) -> Map<Seq<char>, Seq<char>> {
        self.cache@.map_values(|v: String| v@)
    }
}

impl RouteCache {
    /// An empty cache.
    pub fn new() -> (r: Self)
        ensures
            r@ == Map::<Seq<char>, Seq<char>>::empty(),
    {
        let r = RouteCache { cache: KeyedTable::new() };
        assert(r@ =~= Map::<Seq<char>, Seq<char>>::empty());
        r
    }

    /// The upstream cached for `domain`, if any.
    pub fn get(&self, domain: &str) -> (r: Option<String>)
        ensures
            r is Some <==> self@.dom().contains(domain@),
            r matches Some(u) ==> u@ == self@[domain@],
    {
        match self.cache.get(domain) {
            Some(u) => Some(u.clone()),
            None => None,
        }
    }

    /// Caches `route` as the upstream of `domain`, replacing any earlier entry.
    pub fn insert(&mut self, domain: String, route: String)
        ensures
            final(self)@ == old(self)@.insert(domain@, route@),
    {
        let ghost d = domain@;
        let ghost r = route@;
        self.cache.insert(domain, route);
        assert(self@ =~= old(self)@.insert(d, r));
    }

    /// Forgets every entry.
    pub fn clear(&mut self)
        ensures
            final(self)@ == Map::<Seq<char>, Seq<char>>::empty(),
    {
        self.cache.clear();
        assert(self@ =~= Map::<Seq<char>, Seq<char>>::empty());
    }
}

impl Default for RouteCache {
    fn default() -> (r: Self)
        ensures
            r@ == Map::<Seq<char>, Seq<char>>::empty(),
    {
        Self::new()
    }
}

} // verus!
