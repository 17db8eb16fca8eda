use socks_router::server::transfer_data::TransferTally;
use socks_router::server::command_program_and_args;
use socks_router::server::CommandError;
use socks_router::stats::{ConnectionMessage, ConnectionStats};
use socks_router::text::{decimal_string, split_char, split_whitespace};

fn started(host: &str, port: u16) -> ConnectionMessage {
    ConnectionMessage::ConnectionStarted { host: host.to_string(), port }
}

fn ended(host: &str, port: u16) -> ConnectionMessage {
    ConnectionMessage::ConnectionEnded { host: host.to_string(), port }
}

fn moved(host: &str, port: u16, sent: u64, received: u64) -> ConnectionMessage {
    ConnectionMessage::DataTransferred { host: host.to_string(), port, bytes_sent: sent, bytes_received: received }
}

#[test]
fn stats_count_connections_and_bytes() {
    let mut stats = ConnectionStats::new();
    assert!(stats.print_stats().is_empty());
    stats.handle_message(started("example.com", 443));
    stats.handle_message(started("example.com", 443));
    stats.handle_message(moved("example.com", 443, 100, 2000));
    stats.handle_message(moved("example.com", 443, 1, 2));
    stats.handle_message(ended("example.com", 443));
    assert_eq!(
        stats.print_stats(),
        vec!["Destination: example.com:443 | Active Connections: 1 | Total Bytes Sent: 101 | Total Bytes Received: 2002"
            .to_string()]
    );
}

#[test]
fn stats_keep_destinations_apart_and_never_go_negative() {
    let mut stats = ConnectionStats::default();
    stats.handle_message(ended("a", 1));
    assert!(stats.print_stats().is_empty());
    stats.handle_message(started("a", 1));
    stats.handle_message(started("a", 10));
    stats.handle_message(ended("a", 1));
    stats.handle_message(ended("a", 1));
    let mut lines = stats.print_stats();
    lines.sort();
    assert_eq!(
        lines,
        vec![
            "Destination: a:1 | Active Connections: 0 | Total Bytes Sent: 0 | Total Bytes Received: 0".to_string(),
            "Destination: a:10 | Active Connections: 1 | Total Bytes Sent: 0 | Total Bytes Received: 0".to_string(),
        ]
    );
}

#[test]
fn stats_refuse_counter_overflow() {
    let mut stats = ConnectionStats::new();
    let big = moved("h", 1, u64::MAX, 0);
    assert!(stats.can_handle(&big));
    stats.handle_message(big);
    assert!(!stats.can_handle(&moved("h", 1, 1, 0)));
    assert!(stats.can_handle(&moved("h", 2, 1, 0)));
    assert!(stats.can_handle(&ended("h", 1)));
    assert!(stats.can_handle(&started("h", 1)));
}

#[test]
fn tally_reports_both_directions() {
    let mut tally = TransferTally::new();
    tally.record_sent(10);
    tally.record_received(4096);
    tally.record_sent(5);
    assert_eq!(tally.bytes_sent(), 15);
    assert_eq!(tally.bytes_received(), 4096);
    let (data, end) = tally.finish("example.com", 80);
    assert_eq!(data, moved("example.com", 80, 15, 4096));
    assert_eq!(end, ended("example.com", 80));
}

#[test]
fn commands_split_into_program_and_arguments() {
    assert_eq!(
        command_program_and_args("ssh -N -D9091 ubuntu@X.X.X.X"),
        Ok(("ssh".to_string(), vec!["-N".to_string(), "-D9091".to_string(), "ubuntu@X.X.X.X".to_string()]))
    );
    assert_eq!(command_program_and_args("  run  "), Ok(("run".to_string(), vec![])));
    assert_eq!(command_program_and_args(" \t\n"), Err(CommandError::InvalidCommand));
}

#[test]
fn text_helpers() {
    assert_eq!(decimal_string(0), "0");
    assert_eq!(decimal_string(65535), "65535");
    assert_eq!(decimal_string(u64::MAX), u64::MAX.to_string());
    assert_eq!(split_whitespace(" a\u{2003}b\n\nc "), vec!["a", "b", "c"]);
    assert_eq!(split_char("a::b", ':'), vec!["a", "", "b"]);
    assert_eq!(split_char("", ':'), vec![""]);
}
