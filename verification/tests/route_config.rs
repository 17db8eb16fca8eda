use socks_router::router::route_config::{Matches, Route};

fn route_with(regex: Option<Vec<&str>>, cidr: Option<Vec<&str>>) -> Route {
    let matches = Matches::new(
        regex.map(|v| v.into_iter().map(|s| s.to_string()).collect()),
        cidr.map(|v| v.into_iter().map(|s| s.to_string()).collect()),
    )
    .unwrap();
    Route::new(matches, "http://example.com".to_string(), None)
}

#[test]
fn test_matches_with_regex_match() {
    let route = route_with(Some(vec![r"^test.*"]), None);

    assert!(route.matches("test123"));
    assert!(!route.matches("no-match"));
}

#[test]
fn test_matches_with_cidr_match() {
    let route = route_with(None, Some(vec!["192.168.1.0/24"]));

    assert!(route.matches("192.168.1.42"));
    assert!(!route.matches("10.0.0.1"));
    assert!(!route.matches("invalid-ip"));
}

#[test]
fn test_matches_with_both_regex_and_cidr() {
    let route = route_with(Some(vec![r"^test.*"]), Some(vec!["192.168.1.0/24"]));

    assert!(route.matches("test123")); // Matches regex
    assert!(route.matches("192.168.1.42")); // Matches CIDR
    assert!(!route.matches("no-match"));
    assert!(!route.matches("10.0.0.1")); // Not in CIDR and does not match regex
}

#[test]
fn test_matches_with_no_regex_and_no_cidr() {
    let route = route_with(None, None);

    assert!(!route.matches("anything"));
    assert!(!route.matches("192.168.1.42"));
}

#[test]
fn test_matches_with_invalid_ip() {
    let route = route_with(None, Some(vec!["10.0.0.0/8"]));

    assert!(!route.matches("not-an-ip")); // Invalid IP address should not match
}
