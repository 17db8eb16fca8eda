//! The SOCKS5 UDP relay header: the bytes the relay reads from clients and
//! writes to upstreams and back.

use vstd::prelude::*;
use vstd::utf8::{decode_utf8, encode_utf8, valid_utf8};
use crate::text::{decimal, decimal_string};

verus! {

broadcast use vstd::utf8::encode_utf8_decode_utf8, vstd::utf8::encode_utf8_valid_utf8;

/// An IP socket address: an IPv4 or IPv6 address as a number and a port;
/// an IPv6 address also carries its flow label and scope id.
#[derive(Debug, Clone, Copy, PartialEq, Eq, Structural)]
#[allow(inconsistent_fields)]
pub enum SocketAddress {
    V4 { ip: u32, port: u16 },
    V6 { ip: u128, port: u16, flowinfo: u32, scope_id: u32 },
}

/// Why a relay packet cannot be read or written.
#[derive(Debug, Clone, Copy, PartialEq, Eq, Structural)]
pub enum UdpPacketError {
    /// The packet is shorter than the ten bytes of the smallest header.
    TooShort,
    /// The name in the header is not valid UTF-8.
    InvalidDomain,
    /// The name in the header, followed by `:` and the port, is not a socket
    /// address that `SocketAddr::from_str` reads.
    InvalidAddress,
    /// The address type is none of 1 (IPv4), 3 (name) and 4 (IPv6).
    UnsupportedAddressType,
    /// Replies are written for IPv4 sources only.
    Ipv6Reply,
}

/// The big-endian 16-bit number in `p[i]`, `p[i + 1]`.
pub open spec fn be16_at(p: Seq<u8>, i: int) -> u16 {
    (p[i] as int * 256 + p[i + 1] as int) as u16
}

/// The big-endian 32-bit number in `p[i..i + 4]`.
pub open spec fn be32_at(p: Seq<u8>, i: int) -> u32 {
    (p[i] as int * 0x1000000 + p[i + 1] as int * 0x10000 + p[i + 2] as int * 0x100 + p[i + 3] as int) as u32
}

/// The big-endian 64-bit number in `p[i..i + 8]`.
pub open spec fn be64_at(p: Seq<u8>, i: int) -> u64 {
    (be32_at(p, i) as int * 0x1_0000_0000 + be32_at(p, i + 4) as int) as u64
}

/// The big-endian 128-bit number in `p[i..i + 16]`.
pub open spec fn be128_at(p: Seq<u8>, i: int) -> u128 {
    (be64_at(p, i) as int * 0x1_0000_0000_0000_0000 + be64_at(p, i + 8) as int) as u128
}

/// The bytes of the name in a header of address type 3: a length byte at 4,
/// then the name.
pub open spec fn domain_bytes(p: Seq<u8>) -> Seq<u8> {
    p.subrange(5, 5 + p[4] as int)
}

/// The packets that the reader does not index past the end of: a short
/// packet is refused before any field is read, a name must fit in the
/// packet and, when it decodes as UTF-8, be followed by its two port bytes,
/// and an IPv6 header has 22 bytes.
pub open spec fn udp_packet_in_bounds(p: Seq<u8>) -> bool {
    p.len() < 10 || ((p[3] == 3 ==> 5 + p[4] <= p.len() && (valid_utf8(domain_bytes(p)) ==> 7 + p[4] <= p.len()))
        && (p[3] == 4 ==> 22 <= p.len()))
}

/// The text `name:port`, the port in decimal, as `format!("{}:{}", ..)`
/// writes it.
pub open spec fn name_and_port(name: Seq<char>, port: u16) -> Seq<char> {
    name + seq![':'] + decimal(port as nat)
}

/// The text that a header of address type 3 names: its decoded name, `:`
/// and its port.
pub open spec fn domain_text(p: Seq<u8>) -> Seq<char> {
    name_and_port(decode_utf8(domain_bytes(p)), be16_at(p, 5 + p[4] as int))
}

/// What reading the relay header of `p` gives: the socket address it names,
/// and as data everything from byte 10 on, whatever the header's length. A
/// name is read, with its port, as `SocketAddr::from_str` reads `name:port`.
pub open spec fn udp_parse_matches(p: Seq<u8>, r: Result<(SocketAddress, &[u8]), UdpPacketError>) -> bool {
    match r {
        Ok((addr, data)) => 10 <= p.len() && data@ == p.skip(10) && (if p[3] == 1 {
            addr == SocketAddress::V4 { ip: be32_at(p, 4), port: be16_at(p, 8) }
        } else if p[3] == 4 {
            addr == SocketAddress::V6 { ip: be128_at(p, 4), port: be16_at(p, 20), flowinfo: 0, scope_id: 0 }
        } else {
            p[3] == 3 && valid_utf8(domain_bytes(p)) && socket_addr_from_text(domain_text(p)) == Some(addr)
        }),
        Err(UdpPacketError::TooShort) => p.len() < 10,
        Err(UdpPacketError::InvalidDomain) => 10 <= p.len() && p[3] == 3 && !valid_utf8(domain_bytes(p)),
        Err(UdpPacketError::InvalidAddress) => 10 <= p.len() && p[3] == 3 && valid_utf8(domain_bytes(p))
            && socket_addr_from_text(domain_text(p)) is None,
        Err(UdpPacketError::UnsupportedAddressType) => 10 <= p.len() && p[3] != 1 && p[3] != 3 && p[3] != 4,
        Err(UdpPacketError::Ipv6Reply) => false,
    }
}

/// The socket address that `SocketAddr::from_str` reads from `text`, if any.
pub uninterp spec fn socket_addr_from_text(text: Seq<char>) -> Option<SocketAddress>;

/// Calls `<core::net::SocketAddr as FromStr>::from_str` and gives the
/// address as a number with its port, and for IPv6 its flow label and scope
/// id. Claimed: the result is `socket_addr_from_text` of the text; which
/// texts are socket addresses is left to the name.
#[verifier::external_body]
fn parse_socket_address(text: &str) -> (r: Option<SocketAddress>)
    ensures
        r == socket_addr_from_text(text@),
{
    match text.parse::<core::net::SocketAddr>() {
        Ok(core::net::SocketAddr::V4(a)) => Some(SocketAddress::V4 { ip: u32::from(*a.ip()), port: a.port() }),
        Ok(core::net::SocketAddr::V6(a)) => Some(SocketAddress::V6 {
            ip: u128::from(*a.ip()),
            port: a.port(),
            flowinfo: a.flowinfo(),
            scope_id: a.scope_id(),
        }),
        Err(_) => None,
    }
}

/// The socket address of an upstream proxy given as text, as
/// `SocketAddr::from_str` reads it; `None` when the text is not one.
pub fn parse_upstream_address(upstream: &str) -> (r: Option<SocketAddress>)
    ensures
        r == socket_addr_from_text(upstream@),
{
    parse_socket_address(upstream)
}

/// Calls `std::str::from_utf8`, which accepts exactly the valid UTF-8 byte
/// strings. Claimed: the result is present exactly for valid UTF-8, and is
/// then the decoding of the bytes.
#[verifier::external_body]
fn utf8_to_string(bytes: &[u8]) -> (r: Option<String>)
    ensures
        r is Some <==> valid_utf8(bytes@),
        r matches Some(s) ==> s@ == decode_utf8(bytes@),
{
    match std::str::from_utf8(bytes) {
        Ok(s) => Some(s.to_string()),
        Err(_) => None,
    }
}

fn be16(hi: u8, lo: u8) -> (r: u16)
    ensures
        r == (hi as int * 256 + lo as int) as u16,
{
    (hi as u16) * 256 + (lo as u16)
}

fn be32(p: &[u8], i: usize) -> (r: u32)
    requires
        i + 4 <= p@.len(),
    ensures
        r == be32_at(p@, i as int),
{
    (p[i] as u32) * 0x1000000 + (p[i + 1] as u32) * 0x10000 + (p[i + 2] as u32) * 0x100 + (p[i + 3] as u32)
}

fn be128(p: &[u8], i: usize) -> (r: u128)
    requires
        i + 16 <= p@.len(),
    ensures
        r == be128_at(p@, i as int),
{
    assert(i + 16 <= p.len());
    let a = be32(p, i) as u64;
    let b = be32(p, i + 4) as u64;
    let c = be32(p, i + 8) as u64;
    let d = be32(p, i + 12) as u64;
    let hi = a * 0x1_0000_0000 + b;
    let lo = c * 0x1_0000_0000 + d;
    (hi as u128) * 0x1_0000_0000_0000_0000 + (lo as u128)
}

/// Reads the SOCKS5 UDP relay header of a packet: the socket address it
/// names and the data after the first ten bytes.
pub fn parse_socks5_udp_packet(packet: &[u8]) -> (r: Result<(SocketAddress, &[u8]), UdpPacketError>)
    requires
        udp_packet_in_bounds(packet@),
    ensures
        udp_parse_matches(packet@, r),
{
    if packet.len() < 10 {
        return Err(UdpPacketError::TooShort);
    }
    let address_type = packet[3];
    let target = if address_type == 1 {
        SocketAddress::V4 { ip: be32(packet, 4), port: be16(packet[8], packet[9]) }
    } else if address_type == 3 {
        let domain_len = packet[4] as usize;
        let mut text = match utf8_to_string(&packet[5..5 + domain_len]) {
            Some(name) => name,
            None => {
                assert(packet@.subrange(5, 5 + domain_len as int) == domain_bytes(packet@));
                return Err(UdpPacketError::InvalidDomain);
            },
        };
        assert(packet@.subrange(5, 5 + domain_len as int) == domain_bytes(packet@));
        let port = be16(packet[5 + domain_len], packet[5 + domain_len + 1]);
        proof {
            reveal_strlit(":");
        }
        text.append(":");
        text.append(decimal_string(port as u64).as_str());
        assert(text@ =~= domain_text(packet@));
        match parse_socket_address(text.as_str()) {
            Some(addr) => addr,
            None => return Err(UdpPacketError::InvalidAddress),
        }
    } else if address_type == 4 {
        SocketAddress::V6 { ip: be128(packet, 4), port: be16(packet[20], packet[21]), flowinfo: 0, scope_id: 0 }
    } else {
        return Err(UdpPacketError::UnsupportedAddressType);
    };
    let data = &packet[10..packet.len()];
    assert(data@ =~= packet@.skip(10));
    Ok((target, data))
}

} // verus!

verus! {

/// The relay header and payload that ask an upstream to send `payload` to
/// the name `addr`, port `port`: address type 3, then a one-byte length,
/// which keeps the low 8 bits of the name's UTF-8 length, the name's UTF-8
/// bytes, the port in big-endian order, and the payload.
pub open spec fn request_bytes(addr: Seq<char>, port: u16, payload: Seq<u8>) -> Seq<u8> {
    seq![0u8, 0u8, 0u8, 3u8, (encode_utf8(addr).len() % 256) as u8] + encode_utf8(addr) + seq![
        (port / 256) as u8,
        (port % 256) as u8,
    ] + payload
}

/// The relay header and data that hand `data` from the IPv4 source `ip`,
/// port `port`, back to a client: address type 1, the four address bytes
/// and the port, both big-endian, then the data.
pub open spec fn reply_bytes(ip: u32, port: u16, data: Seq<u8>) -> Seq<u8> {
    seq![
        0u8,
        0u8,
        0u8,
        1u8,
        (ip / 0x1000000) as u8,
        ((ip / 0x10000) % 256) as u8,
        ((ip / 0x100) % 256) as u8,
        (ip % 256) as u8,
        (port / 256) as u8,
        (port % 256) as u8,
    ] + data
}

fn push_all(v: &mut Vec<u8>, s: &[u8])
    ensures
        final(v)@ == old(v)@ + s@,
{
    let mut i: usize = 0;
    while i < s.len()
        invariant
            i <= s@.len(),
            v@ == old(v)@ + s@.take(i as int),
        decreases s@.len() - i,
    {
        v.push(s[i]);
        i = i + 1;
        assert(v@ =~= old(v)@ + s@.take(i as int));
    }
    assert(s@.take(s@.len() as int) =~= s@);
}

/// Writes the relay header that forwards `payload` to `target_addr`,
/// port `target_port`, followed by the payload.
pub fn build_socks5_udp_request(target_addr: &str, target_port: u16, payload: &[u8]) -> (r: Result<Vec<u8>, UdpPacketError>)
    ensures
        r matches Ok(v) && v@ == request_bytes(target_addr@, target_port, payload@),
{
    let name = target_addr.as_bytes();
    let mut packet: Vec<u8> = Vec::new();
    packet.push(0);
    packet.push(0);
    packet.push(0);
    packet.push(3);
    packet.push((name.len() % 256) as u8);
    push_all(&mut packet, name);
    packet.push((target_port / 256) as u8);
    packet.push((target_port % 256) as u8);
    push_all(&mut packet, payload);
    assert(packet@ =~= request_bytes(target_addr@, target_port, payload@));
    Ok(packet)
}

/// Writes the relay header that hands `data` from `client_addr` back to the
/// client, followed by the data; only IPv4 sources are written.
pub fn build_socks5_udp_response(client_addr: &SocketAddress, data: &[u8]) -> (r: Result<Vec<u8>, UdpPacketError>)
    ensures
        match *client_addr {
            SocketAddress::V4 { ip, port } => r matches Ok(v) && v@ == reply_bytes(ip, port, data@),
            SocketAddress::V6 { .. } => r == Err::<Vec<u8>, UdpPacketError>(UdpPacketError::Ipv6Reply),
        },
{
    match *client_addr {
        SocketAddress::V4 { ip, port } => {
            let mut response: Vec<u8> = Vec::new();
            response.push(0);
            response.push(0);
            response.push(0);
            response.push(1);
            response.push((ip / 0x1000000) as u8);
            response.push(((ip / 0x10000) % 256) as u8);
            response.push(((ip / 0x100) % 256) as u8);
            response.push((ip % 256) as u8);
            response.push((port / 256) as u8);
            response.push((port % 256) as u8);
            push_all(&mut response, data);
            assert(response@ =~= reply_bytes(ip, port, data@));
            Ok(response)
        },
        SocketAddress::V6 { .. } => Err(UdpPacketError::Ipv6Reply),
    }
}

proof fn lemma_be32_of_quotients(x: u32)
    ensures
        ((x / 0x1000000) as u8) as int * 0x1000000 + (((x / 0x10000) % 256) as u8) as int * 0x10000
            + (((x / 0x100) % 256) as u8) as int * 0x100 + ((x % 256) as u8) as int == x,
{
    assert(((x / 0x1000000) as u8) as int * 0x1000000 + (((x / 0x10000) % 256) as u8) as int * 0x10000
        + (((x / 0x100) % 256) as u8) as int * 0x100 + ((x % 256) as u8) as int == x) by (bit_vector);
}

/// Reading back a reply to a client gives the IPv4 source and the data that
/// were written into it.
pub proof fn law_reply_roundtrip(ip: u32, port: u16, data: Seq<u8>, r: Result<(SocketAddress, &[u8]), UdpPacketError>)
    requires
        udp_parse_matches(reply_bytes(ip, port, data), r),
    ensures
        udp_packet_in_bounds(reply_bytes(ip, port, data)),
        r matches Ok((SocketAddress::V4 { ip: i, port: q }, d)) && i == ip && q == port
            && d@ == data,
{
    let p = reply_bytes(ip, port, data);
    lemma_be32_of_quotients(ip);
    assert(p.skip(10) =~= data);
    assert(be32_at(p, 4) == ip);
}

/// Reading back a request written for an upstream resolves the name and
/// port it was written for, as `SocketAddr::from_str` reads `name:port`, and
/// gives as data the bytes after the first ten: the payload itself when the
/// name is three bytes long. It holds for names of at most 255 bytes, when
/// name and payload together make a packet of at least ten bytes.
pub proof fn law_request_roundtrip(addr: Seq<char>, port: u16, payload: Seq<u8>, r: Result<(SocketAddress, &[u8]), UdpPacketError>)
    requires
        encode_utf8(addr).len() <= 255,
        encode_utf8(addr).len() + payload.len() >= 3,
        udp_parse_matches(request_bytes(addr, port, payload), r),
    ensures
        udp_packet_in_bounds(request_bytes(addr, port, payload)),
        r is Ok <==> socket_addr_from_text(name_and_port(addr, port)) is Some,
        r matches Ok((a, d)) ==> socket_addr_from_text(name_and_port(addr, port)) == Some(a) && d@
            == request_bytes(addr, port, payload).skip(10),
        r matches Err(e) ==> e == UdpPacketError::InvalidAddress,
        encode_utf8(addr).len() == 3 ==> (r matches Ok((_, d)) ==> d@ == payload),
{
    let p = request_bytes(addr, port, payload);
    let n = encode_utf8(addr).len() as int;
    assert(p[4] as int == n);
    assert(domain_bytes(p) =~= encode_utf8(addr));
    assert(p[5 + n] == (port / 256) as u8);
    assert(p[5 + n + 1] == (port % 256) as u8);
    assert(be16_at(p, 5 + n) == port);
    assert(domain_text(p) == name_and_port(addr, port));
    if n == 3 {
        assert(p.skip(10) =~= payload);
    }
}

} // verus!

verus! {

/// The IPv6 address read from a type-4 header is the big-endian number in
/// bytes 4 to 19, each byte weighted by its place, and the port is the
/// big-endian number in bytes 20 and 21; nothing else is read into it.
pub proof fn law_v6_header_is_big_endian(p: Seq<u8>, r: Result<(SocketAddress, &[u8]), UdpPacketError>)
    requires
        22 <= p.len(),
        p[3] == 4,
        udp_parse_matches(p, r),
    ensures
        r matches Ok((SocketAddress::V6 { ip, port, flowinfo, scope_id }, d)) && ip as int == p[4] as int * 0x1000000000000000000000000000000 + p[5] as int * 0x10000000000000000000000000000 + p[6] as int * 0x100000000000000000000000000 + p[7] as int * 0x1000000000000000000000000 + p[8] as int * 0x10000000000000000000000 + p[9] as int * 0x100000000000000000000 + p[10] as int * 0x1000000000000000000 + p[11] as int * 0x10000000000000000 + p[12] as int * 0x100000000000000 + p[13] as int * 0x1000000000000 + p[14] as int * 0x10000000000 + p[15] as int * 0x100000000 + p[16] as int * 0x1000000 + p[17] as int * 0x10000 + p[18] as int * 0x100 + p[19] as int
            && port as int == p[20] as int * 256 + p[21] as int && flowinfo == 0 && scope_id == 0 && d@ == p.skip(10),
{
    let w0 = be32_at(p, 4) as int;
    let w1 = be32_at(p, 8) as int;
    let w2 = be32_at(p, 12) as int;
    let w3 = be32_at(p, 16) as int;
    assert(w0 == p[4] as int * 0x1000000 + p[5] as int * 0x10000 + p[6] as int * 0x100 + p[7] as int);
    assert(w1 == p[8] as int * 0x1000000 + p[9] as int * 0x10000 + p[10] as int * 0x100 + p[11] as int);
    assert(w2 == p[12] as int * 0x1000000 + p[13] as int * 0x10000 + p[14] as int * 0x100 + p[15] as int);
    assert(w3 == p[16] as int * 0x1000000 + p[17] as int * 0x10000 + p[18] as int * 0x100 + p[19] as int);
    assert(be64_at(p, 4) as int == w0 * 0x1_0000_0000 + w1);
    assert(be64_at(p, 12) as int == w2 * 0x1_0000_0000 + w3);
    assert(be128_at(p, 4) as int == (w0 * 0x1_0000_0000 + w1) * 0x1_0000_0000_0000_0000 + w2 * 0x1_0000_0000 + w3);
}

} // verus!
