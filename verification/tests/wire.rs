use socks_router::server::udp::{
    build_socks5_udp_request, build_socks5_udp_response, parse_socks5_udp_packet, parse_upstream_address, SocketAddress,
    UdpPacketError,
};
use socks_router::socks5::http::{
    classify_http_request, parse_connect_request, read_http_request, HttpRequest, HttpRequestError,
};

#[test]
fn udp_ipv4_header_is_read() {
    let packet = [0, 0, 0, 1, 192, 168, 1, 2, 0x1f, 0x90, b'h', b'i'];
    let (target, data) = parse_socks5_udp_packet(&packet).unwrap();
    assert_eq!(target, SocketAddress::V4 { ip: 0xc0a8_0102, port: 8080 });
    assert_eq!(data, b"hi");
}

#[test]
fn udp_ipv6_header_is_read_and_data_starts_at_ten() {
    let mut packet = vec![0, 0, 0, 4];
    packet.extend_from_slice(&[0x20, 0x01, 0x0d, 0xb8, 0, 0, 0, 0, 0, 0, 0, 0, 0, 0, 0, 1]);
    packet.extend_from_slice(&[0x00, 0x35]);
    packet.push(7);
    let (target, data) = parse_socks5_udp_packet(&packet).unwrap();
    assert_eq!(target, SocketAddress::V6 { ip: 0x2001_0db8_0000_0000_0000_0000_0000_0001, port: 53, flowinfo: 0, scope_id: 0 });
    assert_eq!(data, &packet[10..]);
}

#[test]
fn udp_domain_header_is_read() {
    let packet = build_socks5_udp_request("127.0.0.1", 443, b"payload").unwrap();
    let (target, data) = parse_socks5_udp_packet(&packet).unwrap();
    assert_eq!(target, SocketAddress::V4 { ip: 0x7f00_0001, port: 443 });
    assert_eq!(data, &packet[10..]);
    let short = build_socks5_udp_request("::1", 53, b"q").unwrap();
    assert_eq!(parse_socks5_udp_packet(&short).err(), Some(UdpPacketError::InvalidAddress));
    let bracketed = build_socks5_udp_request("[::1]", 53, b"q").unwrap();
    let (target, _) = parse_socks5_udp_packet(&bracketed).unwrap();
    assert_eq!(target, SocketAddress::V6 { ip: 1, port: 53, flowinfo: 0, scope_id: 0 });
    let scoped = build_socks5_udp_request("[fe80::1%2]", 53, b"q").unwrap();
    let (target, _) = parse_socks5_udp_packet(&scoped).unwrap();
    assert_eq!(target, SocketAddress::V6 { ip: 0xfe80 << 112 | 1, port: 53, flowinfo: 0, scope_id: 2 });
    let three = build_socks5_udp_request("a.b", 443, b"payload").unwrap();
    assert_eq!(parse_socks5_udp_packet(&three).err(), Some(UdpPacketError::InvalidAddress));
    let name = build_socks5_udp_request("example.com", 53, b"q").unwrap();
    assert_eq!(parse_socks5_udp_packet(&name).err(), Some(UdpPacketError::InvalidAddress));
}

#[test]
fn udp_header_errors() {
    assert_eq!(parse_socks5_udp_packet(&[0, 0, 0, 1, 1, 2, 3, 4, 0]).err(), Some(UdpPacketError::TooShort));
    assert_eq!(
        parse_socks5_udp_packet(&[0, 0, 0, 2, 1, 2, 3, 4, 0, 0]).err(),
        Some(UdpPacketError::UnsupportedAddressType)
    );
    assert_eq!(
        parse_socks5_udp_packet(&[0, 0, 0, 3, 2, 0xff, 0xfe, 0, 80, 0]).err(),
        Some(UdpPacketError::InvalidDomain)
    );
    assert_eq!(
        parse_socks5_udp_packet(&[0, 0, 0, 3, 5, 0xff, 0xfe, 0xfd, 0xfc, 0xfb]).err(),
        Some(UdpPacketError::InvalidDomain)
    );
}

#[test]
fn udp_request_bytes() {
    let packet = build_socks5_udp_request("example.com", 8080, &[1, 2, 3]).unwrap();
    let mut expected = vec![0, 0, 0, 3, 11];
    expected.extend_from_slice(b"example.com");
    expected.extend_from_slice(&[0x1f, 0x90, 1, 2, 3]);
    assert_eq!(packet, expected);
    let unicode = build_socks5_udp_request("é", 1, &[]).unwrap();
    assert_eq!(unicode, vec![0, 0, 0, 3, 2, 0xc3, 0xa9, 0, 1]);
}

#[test]
fn udp_reply_bytes_and_roundtrip() {
    let source = SocketAddress::V4 { ip: 0x0a00_0001, port: 53 };
    let reply = build_socks5_udp_response(&source, b"answer").unwrap();
    assert_eq!(&reply[..10], &[0, 0, 0, 1, 10, 0, 0, 1, 0, 53]);
    let (target, data) = parse_socks5_udp_packet(&reply).unwrap();
    assert_eq!(target, source);
    assert_eq!(data, b"answer");
    assert_eq!(
        build_socks5_udp_response(&SocketAddress::V6 { ip: 1, port: 53, flowinfo: 0, scope_id: 0 }, b"x").err(),
        Some(UdpPacketError::Ipv6Reply)
    );
}

#[test]
fn connect_requests_are_parsed() {
    assert_eq!(
        parse_connect_request("CONNECT example.com:443 HTTP/1.1\r\nHost: example.com:443\r\n\r\n"),
        Ok(("example.com".to_string(), 443))
    );
    assert_eq!(parse_connect_request("CONNECT  a:+80\tHTTP/1.1"), Ok(("a".to_string(), 80)));
    assert_eq!(parse_connect_request(""), Err(HttpRequestError::EmptyRequest));
    assert_eq!(parse_connect_request("\nCONNECT a:1 HTTP/1.1"), Err(HttpRequestError::InvalidRequest));
    assert_eq!(parse_connect_request("CONNECT a:1"), Err(HttpRequestError::InvalidRequest));
    assert_eq!(parse_connect_request("GET a:1 HTTP/1.1"), Err(HttpRequestError::InvalidRequest));
    assert_eq!(parse_connect_request("CONNECT [::1]:443 HTTP/1.1"), Err(HttpRequestError::InvalidTarget));
    assert_eq!(parse_connect_request("CONNECT a HTTP/1.1"), Err(HttpRequestError::InvalidTarget));
    assert_eq!(parse_connect_request("CONNECT a:65536 HTTP/1.1"), Err(HttpRequestError::InvalidPort));
    assert_eq!(parse_connect_request("CONNECT a: HTTP/1.1"), Err(HttpRequestError::InvalidPort));
    assert_eq!(parse_connect_request("CONNECT a:-1 HTTP/1.1"), Err(HttpRequestError::InvalidPort));
    assert_eq!(parse_connect_request("CONNECT\u{3000}a:7\u{a0}HTTP/1.1"), Ok(("a".to_string(), 7)));
}

#[test]
fn http_requests_are_classified() {
    assert_eq!(
        classify_http_request("CONNECT host:8080 HTTP/1.1\r\n\r\n"),
        Ok(HttpRequest::Connect { host: "host".to_string(), port: 8080 })
    );
    assert_eq!(classify_http_request("GET / HTTP/1.1\r\n\r\n"), Ok(HttpRequest::Unsupported));
    assert_eq!(classify_http_request("CONNECTx"), Err(HttpRequestError::InvalidRequest));
    assert_eq!(
        read_http_request(b"CONNECT h:1 HTTP/1.0\r\n"),
        Ok(HttpRequest::Connect { host: "h".to_string(), port: 1 })
    );
    assert_eq!(read_http_request(b"CONNECT h\xff:1 HTTP/1.0\r\n"), Ok(HttpRequest::Connect { host: "h\u{fffd}".to_string(), port: 1 }));
    assert_eq!(read_http_request(b"\xffGET"), Ok(HttpRequest::Unsupported));
}

#[test]
fn upstream_addresses_are_read_as_socket_addresses() {
    assert_eq!(parse_upstream_address("127.0.0.1:9090"), Some(SocketAddress::V4 { ip: 0x7f00_0001, port: 9090 }));
    assert_eq!(
        parse_upstream_address("[fe80::1%2]:1080"),
        Some(SocketAddress::V6 { ip: 0xfe80 << 112 | 1, port: 1080, flowinfo: 0, scope_id: 2 })
    );
    assert_eq!(parse_upstream_address("localhost:1080"), None);
    assert_eq!(parse_upstream_address("127.0.0.1"), None);
}
