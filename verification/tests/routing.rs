use socks_router::router::route_cache::RouteCache;
use socks_router::router::route_config::{
    ConfigError, Matches, Route, RoutingConfig,
};
use socks_router::router::router::{Router, UpstreamLookup};
use socks_router::router::{Route as PatternRoute, Router as PatternRouter, RoutingConfig as PatternConfig};
use socks_router::router::route::RouteError;
use socks_router::server::socks5::{extract_domain, plan_socks_request, routing_key, SocksCommand, SocksPlan};

fn strings(v: &[&str]) -> Vec<String> {
    v.iter().map(|s| s.to_string()).collect()
}

fn route(regex: &[&str], cidr: &[&str], upstream: &str, command: Option<&str>) -> Route {
    let regex = if regex.is_empty() { None } else { Some(strings(regex)) };
    let cidr = if cidr.is_empty() { None } else { Some(strings(cidr)) };
    Route::new(Matches::new(regex, cidr).unwrap(), upstream.to_string(), command.map(|c| c.to_string()))
}

#[test]
fn cache_read_after_write_and_clear() {
    let mut cache = RouteCache::new();
    assert_eq!(cache.get("example.com"), None);
    cache.insert("example.com".to_string(), "127.0.0.1:9090".to_string());
    cache.insert("other.org".to_string(), "127.0.0.1:9091".to_string());
    assert_eq!(cache.get("example.com"), Some("127.0.0.1:9090".to_string()));
    cache.insert("example.com".to_string(), "127.0.0.1:9092".to_string());
    assert_eq!(cache.get("example.com"), Some("127.0.0.1:9092".to_string()));
    assert_eq!(cache.get("other.org"), Some("127.0.0.1:9091".to_string()));
    cache.clear();
    assert_eq!(cache.get("example.com"), None);
    assert_eq!(cache.get("other.org"), None);
    let default = RouteCache::default();
    assert_eq!(default.get("example.com"), None);
}

#[test]
fn ip_addresses_are_read_as_numbers() {
    let v4 = route(&[], &["1.2.3.4/32"], "u", None);
    assert!(v4.matches("1.2.3.4"));
    assert!(!v4.matches("1.2.3.5"));
    let v6 = route(&[], &["::1/128"], "u", None);
    assert!(v6.matches("::1"));
    assert!(v6.matches("0:0:0:0:0:0:0:1"));
    assert!(!v6.matches("::2"));
    let all = route(&[], &["0.0.0.0/0"], "u", None);
    assert!(!all.matches("example.com"));
    assert!(!all.matches("256.1.1.1"));
    assert!(all.matches("255.1.1.1"));
}

#[test]
fn cidr_blocks_are_read_with_their_prefix() {
    let wide = route(&[], &["10.1.9.32/16"], "u", None);
    assert!(wide.matches("10.1.200.7"));
    assert!(!wide.matches("10.2.9.32"));
    let bare = route(&[], &["10.0.0.1"], "u", None);
    assert!(bare.matches("10.0.0.1"));
    assert!(!bare.matches("10.0.0.2"));
    let netmask = route(&[], &["10.0.0.0/255.0.0.0"], "u", None);
    assert!(netmask.matches("10.200.0.1"));
    assert!(!netmask.matches("11.0.0.1"));
    let v6 = route(&[], &["2001:db8::/32"], "u", None);
    assert!(v6.matches("2001:db8:ffff::1"));
    assert!(!v6.matches("2001:db9::1"));
    assert_eq!(
        Matches::new(None, Some(strings(&["10.0.0.0/33"]))).err(),
        Some(ConfigError::InvalidCidr("10.0.0.0/33".to_string()))
    );
    assert_eq!(
        Matches::new(None, Some(strings(&["not a block"]))).err(),
        Some(ConfigError::InvalidCidr("not a block".to_string()))
    );
}

#[test]
fn blocks_match_by_prefix_and_family() {
    let r = route(&[], &["10.0.0.0/8", "2001:db8::/32"], "u", None);
    assert!(r.matches("10.255.1.2"));
    assert!(!r.matches("11.0.0.1"));
    assert!(r.matches("2001:db8::1"));
    assert!(!r.matches("2001:db9::1"));
    assert!(!r.matches("::ffff:10.0.0.1"));
    let all = route(&[], &["0.0.0.0/0"], "u", None);
    assert!(all.matches("203.0.113.9"));
    assert!(!all.matches("::1"));
    let one = route(&[], &["192.0.2.7/32"], "u", None);
    assert!(one.matches("192.0.2.7"));
    assert!(!one.matches("192.0.2.8"));
}

#[test]
fn match_rules_report_the_first_bad_entry() {
    assert_eq!(
        Matches::new(Some(strings(&["ok", "(", "["])), Some(strings(&["bad"]))).err(),
        Some(ConfigError::InvalidRegex("(".to_string()))
    );
    assert_eq!(
        Matches::new(Some(strings(&["ok"])), Some(strings(&["10.0.0.0/8", "300.0.0.0/8", "x"]))).err(),
        Some(ConfigError::InvalidCidr("300.0.0.0/8".to_string()))
    );
    assert!(Matches::new(None, None).is_ok());
}

#[test]
fn route_accessors() {
    let r = route(&["a"], &[], "127.0.0.1:9091", Some("ssh -N -D9091 host"));
    assert_eq!(r.upstream(), "127.0.0.1:9091");
    assert_eq!(r.command(), Some("ssh -N -D9091 host"));
    let copy = r.clone();
    assert_eq!(copy.upstream(), "127.0.0.1:9091");
    assert!(copy.matches("a"));
    let r2 = route(&["a"], &[], "u", None);
    assert_eq!(r2.command(), None);
}

#[test]
fn first_matching_route_wins() {
    let config = RoutingConfig::new(vec![
        route(&[r"^(?:[a-zA-Z0-9-]+\.)*ifconfig\.me$"], &[], "127.0.0.1:9091", Some("ssh -N -D9091 host")),
        route(&[r"ipify\.org$", "icanhazip.com"], &["10.0.0.0/24"], "127.0.0.1:9090", None),
        route(&[".*"], &[], "127.0.0.1:9999", None),
    ]);
    assert_eq!(config.routes().len(), 3);
    let router = Router::new(config);
    assert_eq!(router.route("api.ifconfig.me").unwrap().upstream(), "127.0.0.1:9091");
    assert_eq!(router.route("api.ipify.org").unwrap().upstream(), "127.0.0.1:9090");
    assert_eq!(router.route("10.0.0.5").unwrap().upstream(), "127.0.0.1:9090");
    assert_eq!(router.route("example.com").unwrap().upstream(), "127.0.0.1:9999");
    let narrow = Router::new(RoutingConfig::new(vec![route(&["^x$"], &[], "u", None)]));
    assert!(narrow.route("y").is_none());
    assert_eq!(router.config().routes().len(), 3);
}

#[test]
fn lookup_prefers_the_cache_and_reload_clears_it() {
    let mut router = Router::new(RoutingConfig::new(vec![route(&["example"], &[], "127.0.0.1:9090", Some("run it"))]));
    assert_eq!(
        router.lookup_upstream("example.com"),
        UpstreamLookup::Routed { upstream: "127.0.0.1:9090".to_string(), command: Some("run it".to_string()) }
    );
    assert_eq!(router.lookup_upstream("other.org"), UpstreamLookup::Unrouted);
    router.add_to_cache("example.com".to_string(), "127.0.0.1:9090".to_string());
    router.add_to_cache("other.org".to_string(), "127.0.0.1:7777".to_string());
    assert_eq!(router.lookup_upstream("example.com"), UpstreamLookup::Cached("127.0.0.1:9090".to_string()));
    assert_eq!(router.lookup_upstream("other.org"), UpstreamLookup::Cached("127.0.0.1:7777".to_string()));
    assert_eq!(router.get_from_cache("other.org"), Some("127.0.0.1:7777".to_string()));
    router.reload(RoutingConfig::new(vec![route(&["other"], &[], "127.0.0.1:8080", None)]));
    assert_eq!(router.get_from_cache("other.org"), None);
    assert_eq!(router.lookup_upstream("example.com"), UpstreamLookup::Unrouted);
    assert_eq!(
        router.lookup_upstream("other.org"),
        UpstreamLookup::Routed { upstream: "127.0.0.1:8080".to_string(), command: None }
    );
    router.add_to_cache("a".to_string(), "b".to_string());
    router.clear_cache();
    assert_eq!(router.get_from_cache("a"), None);
}

#[test]
fn pattern_routes_skip_invalid_patterns() {
    let bad = PatternRoute::new("(".to_string(), "127.0.0.1:1".to_string());
    assert_eq!(bad.matches("anything"), Err(RouteError::InvalidPattern));
    let good = PatternRoute::new("^ex".to_string(), "127.0.0.1:2".to_string());
    assert_eq!(good.matches("example.com"), Ok(true));
    assert_eq!(good.matches("other"), Ok(false));
    assert_eq!(good.upstream(), "127.0.0.1:2");
    let router = PatternRouter::new(PatternConfig::new(vec![bad, good.clone()]));
    assert_eq!(router.route("example.com"), Some("127.0.0.1:2".to_string()));
    assert_eq!(router.route("zzz"), None);
    let config = PatternConfig::new(vec![good]);
    assert_eq!(config.routes().len(), 1);
}

#[test]
fn targets_are_routed_by_url_domain_or_as_given() {
    assert_eq!(extract_domain("example.com"), None);
    assert_eq!(extract_domain("http://example.com/path"), Some("example.com".to_string()));
    assert_eq!(extract_domain("http://192.168.1.1/"), None);
    assert_eq!(routing_key("example.com"), "example.com");
    assert_eq!(routing_key("https://www.example.org:8443/x"), "www.example.org");
    assert_eq!(routing_key("10.0.0.1"), "10.0.0.1");
}

#[test]
fn socks_requests_are_planned_from_the_lookup() {
    let routed = UpstreamLookup::Routed { upstream: "127.0.0.1:9091".to_string(), command: Some("ssh -N".to_string()) };
    assert_eq!(plan_socks_request(SocksCommand::TcpBind, routed.clone()), SocksPlan::Refuse);
    assert_eq!(
        plan_socks_request(SocksCommand::TcpConnect, routed.clone()),
        SocksPlan::Serve {
            upstream: Some("127.0.0.1:9091".to_string()),
            command: Some("ssh -N".to_string()),
            cache: true,
            udp: false
        }
    );
    assert_eq!(
        plan_socks_request(SocksCommand::UdpAssociate, UpstreamLookup::Cached("127.0.0.1:9090".to_string())),
        SocksPlan::Serve { upstream: Some("127.0.0.1:9090".to_string()), command: None, cache: false, udp: true }
    );
    assert_eq!(
        plan_socks_request(SocksCommand::TcpConnect, UpstreamLookup::Unrouted),
        SocksPlan::Serve { upstream: None, command: None, cache: false, udp: false }
    );
}
