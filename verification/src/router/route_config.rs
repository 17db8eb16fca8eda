//! The routing rules: which destinations each route claims, by name pattern
//! or by address block, and where it sends them.

use vstd::prelude::*;
use regex::Regex;

verus! {

/// An IP address as a number: 32 bits for IPv4, 128 for IPv6.
#[derive(Debug, Clone, Copy, PartialEq, Eq, Structural)]
pub enum IpAddress {
    V4(u32),
    V6(u128),
}

/// An address block: an address and the length of the prefix that the
/// block's addresses share with it.
#[derive(Debug, Clone, Copy, PartialEq, Eq, Structural)]
pub struct CidrBlock {
    pub addr: IpAddress,
    pub prefix: u8,
}

/// A prefix length that fits the address family: at most 32 for IPv4 and
/// at most 128 for IPv6.
pub open spec fn cidr_valid(c: CidrBlock) -> bool {
    match c.addr {
        IpAddress::V4(_) => c.prefix <= 32,
        IpAddress::V6(_) => c.prefix <= 128,
    }
}

/// The IPv4 netmask with the top `prefix` bits set.
pub open spec fn mask_v4(prefix: u8) -> u32 {
    (!(0xffff_ffffu64 >> prefix)) as u32
}

/// The IPv6 netmask with the top `prefix` bits set.
pub open spec fn mask_v6(prefix: u8) -> u128 {
    if prefix == 0 {
        0
    } else {
        u128::MAX << ((128 - prefix) as u128)
    }
}

/// Whether the block holds `ip`: same family, and the same bits under the
/// block's netmask.
pub open spec fn cidr_contains(c: CidrBlock, ip: IpAddress) -> bool {
    match (c.addr, ip) {
        (IpAddress::V4(a), IpAddress::V4(x)) => (x & mask_v4(c.prefix)) == (a & mask_v4(c.prefix)),
        (IpAddress::V6(a), IpAddress::V6(x)) => (x & mask_v6(c.prefix)) == (a & mask_v6(c.prefix)),
        _ => false,
    }
}

/// Tests whether the block holds `ip`, as `IpNetwork::contains` does.
pub fn cidr_block_contains(c: &CidrBlock, ip: &IpAddress) -> (r: bool)
    requires
        cidr_valid(*c),
    ensures
        r == cidr_contains(*c, *ip),
{
    match (c.addr, *ip) {
        (IpAddress::V4(a), IpAddress::V4(x)) => {
            let mask = (!(0xffff_ffffu64 >> c.prefix)) as u32;
            (x & mask) == (a & mask)
        },
        (IpAddress::V6(a), IpAddress::V6(x)) => {
            let mask: u128 = if c.prefix == 0 {
                0
            } else {
                u128::MAX << ((128 - c.prefix) as u128)
            };
            (x & mask) == (a & mask)
        },
        _ => false,
    }
}

/// The address that `IpAddr::from_str` reads from `text`, if any.
pub uninterp spec fn ip_from_text(text: Seq<char>) -> Option<IpAddress>;

/// Calls `<core::net::IpAddr as FromStr>::from_str` and gives the address as
/// a number. Claimed: the result is `ip_from_text` of the text; which texts
/// are addresses is left to the name.
#[verifier::external_body]
pub(crate) fn parse_ip_address(text: &str) -> (r: Option<IpAddress>)
    ensures
        r == ip_from_text(text@),
{
    match text.parse::<core::net::IpAddr>() {
        Ok(core::net::IpAddr::V4(a)) => Some(IpAddress::V4(u32::from(a))),
        Ok(core::net::IpAddr::V6(a)) => Some(IpAddress::V6(u128::from(a))),
        Err(_) => None,
    }
}

/// The block that `IpNetwork::from_str` reads from `text`, if any.
pub uninterp spec fn cidr_from_text(text: Seq<char>) -> Option<CidrBlock>;

/// Calls `<ipnetwork::IpNetwork as FromStr>::from_str` and gives the block's
/// address and prefix length. Claimed: the result is `cidr_from_text` of the
/// text, and a block read has a prefix length that fits its family, which
/// `Ipv4Network::new` and `Ipv6Network::new` check; which texts are blocks
/// is left to the name.
#[verifier::external_body]
pub(crate) fn parse_cidr_block(text: &str) -> (r: Option<CidrBlock>)
    ensures
        r == cidr_from_text(text@),
        r matches Some(c) ==> cidr_valid(c),
{
    match text.parse::<ipnetwork::IpNetwork>() {
        Ok(ipnetwork::IpNetwork::V4(n)) => Some(CidrBlock { addr: IpAddress::V4(u32::from(n.ip())), prefix: n.prefix() }),
        Ok(ipnetwork::IpNetwork::V6(n)) => Some(CidrBlock { addr: IpAddress::V6(u128::from(n.ip())), prefix: n.prefix() }),
        Err(_) => None,
    }
}

#[verifier::external_type_specification]
#[verifier::external_body]
pub struct ExRegex(Regex);

#[verifier::external_type_specification]
#[verifier::external_body]
pub struct ExRegexError(regex::Error);

/// Whether `Regex::new` accepts `pattern`.
pub uninterp spec fn regex_compiles(pattern: Seq<char>) -> bool;

/// Whether the regex compiled from `pattern` matches somewhere in `haystack`.
pub uninterp spec fn regex_is_match(pattern: Seq<char>, haystack: Seq<char>) -> bool;

/// Calls `Regex::new`. Claimed: it succeeds exactly when `regex_compiles`
/// holds of the pattern; the syntax and size limit it checks are left to the
/// name.
#[verifier::external_body]
fn compile_regex(pattern: &str) -> (r: Result<Regex, regex::Error>)
    ensures
        r is Ok <==> regex_compiles(pattern@),
{
    Regex::new(pattern)
}

/// Calls `Regex::clone`; nothing is claimed of the copy, which is opaque.
#[verifier::external_body]
fn clone_regex(re: &Regex) -> (r: Regex) {
    re.clone()
}

/// A regular expression, kept with the text it was compiled from.
pub struct RoutePattern {
    source: String,
    compiled: Regex,
}

impl RoutePattern {
    /// The text the pattern was compiled from.
    pub closed spec fn source(&self) -> Seq<char> {
        self.source@
    }

    /// Compiles `source`; `None` when `Regex::new` refuses it.
    pub fn new(source: &str) -> (r: Option<RoutePattern>)
        ensures
            r is Some <==> regex_compiles(source@),
            r matches Some(p) ==> p.source() == source@,
    {
        match compile_regex(source) {
            Ok(compiled) => Some(RoutePattern { source: String::from_str(source), compiled }),
            Err(_) => None,
        }
    }

    /// The text the pattern was compiled from.
    pub fn as_str(&self) -> (r: &str)
        ensures
            r@ == self.source(),
    {
        self.source.as_str()
    }
}

/// Calls `Regex::is_match` on the regex of `pattern`. Claimed: the result is
/// `regex_is_match` of the pattern's text and the haystack, which holds since
/// a `RoutePattern` is only made by compiling its text, or by copying one.
#[verifier::external_body]
fn pattern_is_match(pattern: &RoutePattern, haystack: &str) -> (r: bool)
    ensures
        r == regex_is_match(pattern.source(), haystack@),
{
    pattern.compiled.is_match(haystack)
}

/// Tests the pattern against `haystack`.
pub fn pattern_matches(pattern: &RoutePattern, haystack: &str) -> (r: bool)
    ensures
        r == regex_is_match(pattern.source(), haystack@),
{
    pattern_is_match(pattern, haystack)
}

impl Clone for RoutePattern {
    fn clone(&self) -> (r: Self)
        ensures
            r.source() == self.source(),
    {
        RoutePattern { source: self.source.clone(), compiled: clone_regex(&self.compiled) }
    }
}

} // verus!

verus! {

/// Why a route's match rules cannot be built.
#[derive(Debug, Clone, PartialEq, Eq)]
pub enum ConfigError {
    /// This pattern is not a regular expression that `Regex::new` accepts.
    InvalidRegex(String),
    /// This text is not an address block that `IpNetwork::from_str` accepts.
    InvalidCidr(String),
}

/// The texts of an optional list of strings.
pub open spec fn opt_string_views(o: Option<Vec<String>>) -> Option<Seq<Seq<char>>> {
    match o {
        Some(v) => Some(v@.map_values(|s: String| s@)),
        None => None,
    }
}

/// Some pattern matches `input`.
pub open spec fn regex_hit(patterns: Option<Seq<Seq<char>>>, input: Seq<char>) -> bool {
    match patterns {
        Some(ps) => some_pattern_matches(ps, input),
        None => false,
    }
}

/// Some pattern of `ps` matches `input`.
pub open spec fn some_pattern_matches(ps: Seq<Seq<char>>, input: Seq<char>) -> bool {
    exists|i: int| 0 <= i < ps.len() && #[trigger] regex_is_match(ps[i], input)
}

/// `input` is an IP address that some block holds.
pub open spec fn cidr_hit(blocks: Option<Seq<CidrBlock>>, input: Seq<char>) -> bool {
    match (ip_from_text(input), blocks) {
        (Some(ip), Some(bs)) => some_block_contains(bs, ip),
        _ => false,
    }
}

/// Some block of `bs` holds `ip`.
pub open spec fn some_block_contains(bs: Seq<CidrBlock>, ip: IpAddress) -> bool {
    exists|j: int| 0 <= j < bs.len() && #[trigger] cidr_contains(bs[j], ip)
}

/// What a route claims: the destinations that one of its patterns matches,
/// and the addresses that one of its blocks holds.
pub open spec fn matches_input(m: (Option<Seq<Seq<char>>>, Option<Seq<CidrBlock>>), input: Seq<char>) -> bool {
    regex_hit(m.0, input) || cidr_hit(m.1, input)
}

/// The patterns and address blocks by which a route claims destinations.
pub struct Matches {
    regex: Option<Vec<RoutePattern>>,
    cidr: Option<Vec<CidrBlock>>,
}

impl View for Matches {
    type V = (Option<Seq<Seq<char>>>, Option<Seq<CidrBlock>>);

    closed spec fn view(&self) -> Self::V {
        (
            match self.regex {
                Some(v) => Some(v@.map_values(|p: RoutePattern| p.source())),
                None => None,
            },
            match self.cidr {
                Some(v) => Some(v@),
                None => None,
            },
        )
    }
}

/// Every pattern compiles.
pub open spec fn all_compile(ps: Seq<Seq<char>>) -> bool {
    forall|i: int| 0 <= i < ps.len() ==> #[trigger] regex_compiles(ps[i])
}

/// Every text is an address block.
pub open spec fn all_blocks(cs: Seq<Seq<char>>) -> bool {
    forall|i: int| 0 <= i < cs.len() ==> #[trigger] cidr_from_text(cs[i]) is Some
}

/// The address blocks read from texts that all are blocks.
pub open spec fn blocks_of(cs: Seq<Seq<char>>) -> Seq<CidrBlock> {
    cs.map_values(|t: Seq<char>| cidr_from_text(t).unwrap())
}

/// `bad` is the first item of `items` that fails `ok`.
pub open spec fn first_failing(items: Seq<Seq<char>>, ok: spec_fn(Seq<char>) -> bool, bad: Seq<char>) -> bool {
    exists|i: int|
        0 <= i < items.len() && items[i] == bad && !ok(bad) && forall|j: int| 0 <= j < i ==> #[trigger] ok(items[j])
}

impl Matches {
    /// Every block's prefix length fits its family.
    #[verifier::type_invariant]
    closed spec fn blocks_valid(self) -> bool {
        self.cidr matches Some(v) ==> forall|j: int| 0 <= j < v@.len() ==> cidr_valid(#[trigger] v@[j])
    }

    /// Compiles the patterns and reads the address blocks of a route. Fails on
    /// the first pattern that does not compile, else on the first text that
    /// is not an address block.
    pub fn new(regex: Option<Vec<String>>, cidr: Option<Vec<String>>) -> (r: Result<Matches, ConfigError>)
        ensures
            r is Ok <==> (opt_string_views(regex) matches Some(ps) ==> all_compile(ps)) && (opt_string_views(
                cidr,
            ) matches Some(cs) ==> all_blocks(cs)),
            r matches Ok(m) ==> m@.0 == opt_string_views(regex) && m@.1 == match opt_string_views(cidr) {
                Some(cs) => Some(blocks_of(cs)),
                None => None,
            },
            r matches Err(ConfigError::InvalidRegex(p)) ==> (opt_string_views(regex) matches Some(ps)
                && first_failing(ps, |t: Seq<char>| regex_compiles(t), p@)),
            r matches Err(ConfigError::InvalidCidr(c)) ==> ((opt_string_views(regex) matches Some(ps)
                ==> all_compile(ps)) && (opt_string_views(cidr) matches Some(cs) && first_failing(
                cs,
                |t: Seq<char>| cidr_from_text(t) is Some,
                c@,
            ))),
    {
        let patterns = match &regex {
            None => None,
            Some(sources) => {
                let ghost ps = sources@.map_values(|s: String| s@);
                let mut out: Vec<RoutePattern> = Vec::new();
                let mut i: usize = 0;
                while i < sources.len()
                    invariant
                        i <= sources@.len(),
                        ps == sources@.map_values(|s: String| s@),
                        opt_string_views(regex) == Some(ps),
                        out@.len() == i,
                        forall|j: int| 0 <= j < i ==> #[trigger] out@[j].source() == ps[j],
                        forall|j: int| 0 <= j < i ==> #[trigger] regex_compiles(ps[j]),
                    decreases sources@.len() - i,
                {
                    match RoutePattern::new(sources[i].as_str()) {
                        Some(p) => out.push(p),
                        None => {
                            proof {
                                assert(ps[i as int] == sources@[i as int]@);
                                assert(!all_compile(ps)) by {
                                    assert(!regex_compiles(ps[i as int]));
                                }
                                assert(first_failing(ps, |t: Seq<char>| regex_compiles(t), ps[i as int]));
                            }
                            return Err(ConfigError::InvalidRegex(sources[i].clone()));
                        },
                    }
                    i = i + 1;
                }
                assert(out@.map_values(|p: RoutePattern| p.source()) =~= ps);
                assert(all_compile(ps));
                Some(out)
            },
        };
        let blocks = match &cidr {
            None => None,
            Some(texts) => {
                let ghost cs = texts@.map_values(|s: String| s@);
                let mut out: Vec<CidrBlock> = Vec::new();
                let mut i: usize = 0;
                while i < texts.len()
                    invariant
                        i <= texts@.len(),
                        cs == texts@.map_values(|s: String| s@),
                        opt_string_views(cidr) == Some(cs),
                        opt_string_views(regex) matches Some(ps) ==> all_compile(ps),
                        out@.len() == i,
                        forall|j: int| 0 <= j < i ==> cidr_from_text(#[trigger] cs[j]) == Some(out@[j]),
                        forall|j: int| 0 <= j < i ==> cidr_valid(#[trigger] out@[j]),
                    decreases texts@.len() - i,
                {
                    match parse_cidr_block(texts[i].as_str()) {
                        Some(b) => out.push(b),
                        None => {
                            proof {
                                assert(cs[i as int] == texts@[i as int]@);
                                assert(!all_blocks(cs)) by {
                                    assert(cidr_from_text(cs[i as int]) is None);
                                }
                                assert forall|j: int| 0 <= j < i implies (|t: Seq<char>| cidr_from_text(t) is Some)(#[trigger] cs[j]) by {
                                    assert(cidr_from_text(cs[j]) == Some(out@[j]));
                                }
                                assert(first_failing(cs, |t: Seq<char>| cidr_from_text(t) is Some, cs[i as int]));
                            }
                            return Err(ConfigError::InvalidCidr(texts[i].clone()));
                        },
                    }
                    i = i + 1;
                }
                assert(out@ =~= blocks_of(cs));
                assert(all_blocks(cs)) by {
                    assert forall|j: int| 0 <= j < cs.len() implies #[trigger] cidr_from_text(cs[j]) is Some by {
                        assert(cidr_from_text(cs[j]) == Some(out@[j]));
                    }
                }
                Some(out)
            },
        };
        Ok(Matches { regex: patterns, cidr: blocks })
    }

    /// Whether these rules claim `input`: a pattern matches it, or it is an IP
    /// address that a block holds.
    pub fn is_match(&self, input: &str) -> (r: bool)
        ensures
            r == matches_input(self@, input@),
    {
        proof {
            use_type_invariant(self);
        }
        let mut matched = false;
        match &self.regex {
            Some(patterns) => {
                let ghost ps = patterns@.map_values(|p: RoutePattern| p.source());
                let mut i: usize = 0;
                while i < patterns.len()
                    invariant
                        i <= patterns@.len(),
                        ps == patterns@.map_values(|p: RoutePattern| p.source()),
                        self@.0 == Some(ps),
                        matched == exists|j: int| 0 <= j < i && #[trigger] regex_is_match(ps[j], input@),
                    decreases patterns@.len() - i,
                {
                    assert(ps[i as int] == patterns@[i as int].source());
                    if pattern_is_match(&patterns[i], input) {
                        matched = true;
                    }
                    i = i + 1;
                }
                assert(matched == regex_hit(Some(ps), input@));
            },
            None => {},
        }
        assert(matched == regex_hit(self@.0, input@));
        if let Some(ip) = parse_ip_address(input) {
            if let Some(blocks) = &self.cidr {
                let mut hit = false;
                let mut j: usize = 0;
                while j < blocks.len()
                    invariant
                        j <= blocks@.len(),
                        forall|k: int| 0 <= k < blocks@.len() ==> cidr_valid(#[trigger] blocks@[k]),
                        hit == exists|k: int| 0 <= k < j && #[trigger] cidr_contains(blocks@[k], ip),
                        self@.1 == Some(blocks@),
                    decreases blocks@.len() - j,
                {
                    if cidr_block_contains(&blocks[j], &ip) {
                        hit = true;
                    }
                    j = j + 1;
                }
                if hit {
                    matched = true;
                }
            }
        }
        matched
    }
}

} // verus!

verus! {

/// The view of an optional string.
pub open spec fn opt_view(o: Option<String>) -> Option<Seq<char>> {
    match o {
        Some(s) => Some(s@),
        None => None,
    }
}

impl Clone for Matches {
    fn clone(&self) -> (r: Self)
        ensures
            r@ == self@,
    {
        proof {
            use_type_invariant(self);
        }
        let regex = match &self.regex {
            Some(patterns) => {
                let mut out: Vec<RoutePattern> = Vec::new();
                let mut i: usize = 0;
                while i < patterns.len()
                    invariant
                        i <= patterns@.len(),
                        out@.len() == i,
                        forall|j: int| 0 <= j < i ==> #[trigger] out@[j].source() == patterns@[j].source(),
                    decreases patterns@.len() - i,
                {
                    out.push(patterns[i].clone());
                    i = i + 1;
                }
                assert(out@.map_values(|p: RoutePattern| p.source()) =~= patterns@.map_values(
                    |p: RoutePattern| p.source(),
                ));
                Some(out)
            },
            None => None,
        };
        let cidr = match &self.cidr {
            Some(blocks) => {
                let mut out: Vec<CidrBlock> = Vec::new();
                let mut i: usize = 0;
                while i < blocks.len()
                    invariant
                        i <= blocks@.len(),
                        out@ == blocks@.take(i as int),
                    decreases blocks@.len() - i,
                {
                    out.push(blocks[i]);
                    i = i + 1;
                    assert(out@ =~= blocks@.take(i as int));
                }
                assert(out@ =~= blocks@);
                Some(out)
            },
            None => None,
        };
        Matches { regex, cidr }
    }
}

/// A routing rule: the destinations it claims, the upstream SOCKS5 proxy it
/// sends them to, and a command that brings that upstream up.
pub struct Route {
    matches: Matches,
    upstream: String,
    command: Option<String>,
}

impl View for Route {
    type V = ((Option<Seq<Seq<char>>>, Option<Seq<CidrBlock>>), Seq<char>, Option<Seq<char>>);

    closed spec fn view(&self) -> Self::V {
        (self.matches@, self.upstream@, opt_view(self.command))
    }
}

impl Route {
    /// A rule from its parts.
    pub fn new(matches: Matches, upstream: String, command: Option<String>) -> (r: Route)
        ensures
            r@ == (matches@, upstream@, opt_view(command)),
    {
        Route { matches, upstream, command }
    }

    /// Whether the rule claims `input`: one of its patterns matches it, or it
    /// is an IP address that one of its blocks holds.
    pub fn matches(&self, input: &str) -> (r: bool)
        ensures
            r == matches_input(self@.0, input@),
    {
        self.matches.is_match(input)
    }

    /// The upstream proxy address.
    pub fn upstream(&self) -> (r: &str)
        ensures
            r@ == self@.1,
    {
        self.upstream.as_str()
    }

    /// The command that brings the upstream up, if any.
    pub fn command(&self) -> (r: Option<&str>)
        ensures
            match (r, self@.2) {
                (Some(c), Some(d)) => c@ == d,
                (None, None) => true,
                _ => false,
            },
    {
        match &self.command {
            Some(c) => Some(c.as_str()),
            None => None,
        }
    }
}

impl Clone for Route {
    fn clone(&self) -> (r: Self)
        ensures
            r@ == self@,
    {
        let command = match &self.command {
            Some(c) => Some(c.clone()),
            None => None,
        };
        Route { matches: self.matches.clone(), upstream: self.upstream.clone(), command }
    }
}

/// The views of a sequence of routes.
pub open spec fn route_views(routes: Seq<Route>) -> Seq<<Route as View>::V> {
    routes.map_values(|r: Route| r@)
}

/// `i` is the first route that claims `input`.
pub open spec fn is_first_match(routes: Seq<<Route as View>::V>, input: Seq<char>, i: int) -> bool {
    &&& 0 <= i < routes.len()
    &&& matches_input(routes[i].0, input)
    &&& forall|j: int| 0 <= j < i ==> !matches_input(#[trigger] routes[j].0, input)
}

/// `route` is the first of `routes` that claims `input`.
pub open spec fn first_match_is(routes: Seq<<Route as View>::V>, input: Seq<char>, route: <Route as View>::V) -> bool {
    exists|i: int| is_first_match(routes, input, i) && route == routes[i]
}

/// No route claims `input`.
pub open spec fn no_match(routes: Seq<<Route as View>::V>, input: Seq<char>) -> bool {
    forall|j: int| 0 <= j < routes.len() ==> !matches_input(#[trigger] routes[j].0, input)
}

/// The routing rules, in the order in which they are tried.
pub struct RoutingConfig {
    routes: Vec<Route>,
}

impl View for RoutingConfig {
    type V = Seq<<Route as View>::V>;

    closed spec fn view(&self) -> Self::V {
        route_views(self.routes@)
    }
}

impl RoutingConfig {
    /// Rules to be tried in the given order.
    pub fn new(routes: Vec<Route>) -> (r: RoutingConfig)
        ensures
            r@ == route_views(routes@),
    {
        RoutingConfig { routes }
    }

    /// The rules, in order.
    pub fn routes(&self) -> (r: &Vec<Route>)
        ensures
            route_views(r@) == self@,
    {
        &self.routes
    }

    /// The first rule that claims `destination`, if any.
    pub fn first_match(&self, destination: &str) -> (r: Option<&Route>)
        ensures
            match r {
                Some(route) => first_match_is(self@, destination@, route@),
                None => no_match(self@, destination@),
            },
    {
        let mut i: usize = 0;
        while i < self.routes.len()
            invariant
                i <= self.routes@.len(),
                self@ == route_views(self.routes@),
                forall|j: int| 0 <= j < i ==> !matches_input(#[trigger] self@[j].0, destination@),
            decreases self.routes@.len() - i,
        {
            if self.routes[i].matches(destination) {
                assert(is_first_match(self@, destination@, i as int));
                return Some(&self.routes[i]);
            }
            i = i + 1;
        }
        None
    }
}

impl Clone for RoutingConfig {
    fn clone(&self) -> (r: Self)
        ensures
            r@ == self@,
    {
        let mut out: Vec<Route> = Vec::new();
        let mut i: usize = 0;
        while i < self.routes.len()
            invariant
                i <= self.routes@.len(),
                out@.len() == i,
                forall|j: int| 0 <= j < i ==> #[trigger] out@[j]@ == self.routes@[j]@,
            decreases self.routes@.len() - i,
        {
            out.push(self.routes[i].clone());
            i = i + 1;
        }
        assert(route_views(out@) =~= route_views(self.routes@));
        RoutingConfig { routes: out }
    }
}

} // verus!

verus! {

/// A block holds its own address.
pub proof fn law_block_holds_own_address(c: CidrBlock)
    requires
        cidr_valid(c),
    ensures
        cidr_contains(c, c.addr),
{
}

/// A block of prefix length 0 holds every address of its family, and no
/// block holds an address of the other family.
pub proof fn law_block_families(c: CidrBlock, ip: IpAddress)
    requires
        cidr_valid(c),
    ensures
        c.prefix == 0 && (c.addr is V4 <==> ip is V4) ==> cidr_contains(c, ip),
        (c.addr is V4) != (ip is V4) ==> !cidr_contains(c, ip),
{
    if c.prefix == 0 {
        assert((!(0xffff_ffffu64 >> 0u8)) as u32 == 0u32) by (bit_vector);
        match (c.addr, ip) {
            (IpAddress::V4(a), IpAddress::V4(x)) => {
                assert((x & 0u32) == (a & 0u32)) by (bit_vector);
            },
            (IpAddress::V6(a), IpAddress::V6(x)) => {
                assert((x & 0u128) == (a & 0u128)) by (bit_vector);
            },
            _ => {},
        }
    }
}

/// A block of full prefix length, 32 bits for IPv4 and 128 for IPv6, holds
/// its own address and no other.
pub proof fn law_full_prefix_holds_one_address(c: CidrBlock, ip: IpAddress)
    requires
        cidr_valid(c),
        c.prefix == (if c.addr is V4 { 32u8 } else { 128u8 }),
    ensures
        cidr_contains(c, ip) <==> ip == c.addr,
{
    match (c.addr, ip) {
        (IpAddress::V4(a), IpAddress::V4(x)) => {
            assert((!(0xffff_ffffu64 >> 32u8)) as u32 == 0xffff_ffffu32) by (bit_vector);
            assert((x & 0xffff_ffffu32) == x && (a & 0xffff_ffffu32) == a) by (bit_vector);
        },
        (IpAddress::V6(a), IpAddress::V6(x)) => {
            assert(u128::MAX << 0u128 == u128::MAX) by (bit_vector);
            assert((x & u128::MAX) == x && (a & u128::MAX) == a) by (bit_vector);
        },
        _ => {},
    }
}

/// A route with neither patterns nor blocks claims nothing.
pub proof fn law_empty_rules_claim_nothing(input: Seq<char>)
    ensures
        !matches_input((None, None), input),
{
}

/// A destination that is not an IP address is claimed by patterns alone;
/// the blocks play no part.
pub proof fn law_blocks_need_an_address(m: (Option<Seq<Seq<char>>>, Option<Seq<CidrBlock>>), input: Seq<char>)
    requires
        ip_from_text(input) is None,
    ensures
        matches_input(m, input) == regex_hit(m.0, input),
{
}

/// When a destination's text reads as an address, a route claims it if one
/// of its blocks holds the address, whatever its patterns say.
pub proof fn law_block_hit_claims(m: (Option<Seq<Seq<char>>>, Option<Seq<CidrBlock>>), input: Seq<char>, j: int)
    requires
        ip_from_text(input) is Some,
        m.1 matches Some(bs) && 0 <= j < bs.len() && cidr_contains(bs[j], ip_from_text(input).unwrap()),
    ensures
        matches_input(m, input),
{
    assert(cidr_contains(m.1.unwrap()[j], ip_from_text(input).unwrap()));
}

} // verus!

verus! {

/// An IPv4 block of prefix length `p` holds exactly the addresses that agree
/// with its own address on the top `p` bits: flipping the last bit of the
/// prefix, bit `32 - p`, leaves the block, and flipping any bit below it
/// stays inside.
pub proof fn law_v4_block_is_its_prefix(a: u32, p: u8, b: u32)
    requires
        0 < p <= 32,
        b < 32,
    ensures
        b == 32 - p ==> !cidr_contains(CidrBlock { addr: IpAddress::V4(a), prefix: p }, IpAddress::V4(a ^ (1u32 << b))),
        b < 32 - p ==> cidr_contains(CidrBlock { addr: IpAddress::V4(a), prefix: p }, IpAddress::V4(a ^ (1u32 << b))),
{
    assert(b == 32 - p ==> ((a ^ (1u32 << b)) & ((!(0xffff_ffffu64 >> p)) as u32)) != (a & ((!(0xffff_ffffu64 >> p)) as u32)))
        by (bit_vector)
        requires
            0 < p <= 32,
            b < 32,
    ;
    assert(b < 32 - p ==> ((a ^ (1u32 << b)) & ((!(0xffff_ffffu64 >> p)) as u32)) == (a & ((!(0xffff_ffffu64 >> p)) as u32)))
        by (bit_vector)
        requires
            0 < p <= 32,
            b < 32,
    ;
}

/// An IPv6 block of prefix length `p` holds exactly the addresses that agree
/// with its own address on the top `p` bits: flipping bit `128 - p` leaves
/// the block, and flipping any bit below it stays inside.
pub proof fn law_v6_block_is_its_prefix(a: u128, p: u8, b: u128)
    requires
        0 < p <= 128,
        b < 128,
    ensures
        b == 128 - p ==> !cidr_contains(CidrBlock { addr: IpAddress::V6(a), prefix: p }, IpAddress::V6(a ^ (1u128 << b))),
        b < 128 - p ==> cidr_contains(CidrBlock { addr: IpAddress::V6(a), prefix: p }, IpAddress::V6(a ^ (1u128 << b))),
{
    let s: u128 = (128 - p) as u128;
    assert(b == s ==> ((a ^ (1u128 << b)) & (u128::MAX << s)) != (a & (u128::MAX << s)))
        by (bit_vector)
        requires
            s < 128,
            b < 128,
    ;
    assert(b < s ==> ((a ^ (1u128 << b)) & (u128::MAX << s)) == (a & (u128::MAX << s)))
        by (bit_vector)
        requires
            s < 128,
            b < 128,
    ;
}

/// Every pattern of a route can claim a destination, and a pattern match
/// claims it whether or not the destination reads as an IP address: the
/// blocks can only add destinations.
pub proof fn law_any_pattern_claims(ps: Seq<Seq<char>>, blocks: Option<Seq<CidrBlock>>, input: Seq<char>, i: int)
    requires
        0 <= i < ps.len(),
        regex_is_match(ps[i], input),
    ensures
        matches_input((Some(ps), blocks), input),
{
    assert(some_pattern_matches(ps, input));
}

/// A route claims a destination exactly when one of its patterns matches it
/// or one of its blocks holds the address it reads as; with no blocks, the
/// patterns alone decide, for IP addresses too.
pub proof fn law_claims_are_patterns_or_blocks(ps: Seq<Seq<char>>, input: Seq<char>)
    ensures
        matches_input((Some(ps), None), input) <==> exists|i: int| 0 <= i < ps.len() && regex_is_match(ps[i], input),
{
}

} // verus!
