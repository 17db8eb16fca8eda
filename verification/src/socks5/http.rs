//! The HTTP side of the proxy: which requests it tunnels, and where to.

use vstd::prelude::*;
use vstd::utf8::{decode_utf8, valid_utf8};
use crate::text::{decimal, is_digit, lacks, law_decimal_reads_back, lemma_decimal_digits, lemma_pieces_from_run, lemma_words_from_run, no_whitespace, is_whitespace, words_from, str_starts_with, chars_of, first_line, first_line_end, parse_u16, parse_u16_chars, pieces, split_char, split_whitespace, str_eq, string_views, words};

verus! {

/// Why a request is not a well-formed `CONNECT` request.
#[derive(Debug, Clone, Copy, PartialEq, Eq, Structural)]
pub enum HttpRequestError {
    /// The request holds no line at all.
    EmptyRequest,
    /// The first line is not `CONNECT`, a target and at least one more word.
    InvalidRequest,
    /// The target is not a host and a port around exactly one `:`.
    InvalidTarget,
    /// The port is not a decimal number below 65536.
    InvalidPort,
}

/// What the proxy does with a request.
#[derive(Debug, Clone, PartialEq, Eq)]
pub enum HttpRequest {
    /// Open a tunnel to `host`, port `port`.
    Connect { host: String, port: u16 },
    /// Any other request: it is answered with 405.
    Unsupported,
}

/// The word `CONNECT`.
pub open spec fn connect_word() -> Seq<char> {
    seq!['C', 'O', 'N', 'N', 'E', 'C', 'T']
}

/// The host and port that a `CONNECT` request names, or why it names none:
/// the first line must hold at least three words, the first of them
/// `CONNECT`; the second must be a host and a decimal port around a single `:`.
pub open spec fn connect_target(request: Seq<char>) -> Result<(Seq<char>, u16), HttpRequestError> {
    match first_line(request) {
        None => Err(HttpRequestError::EmptyRequest),
        Some(line) => {
            let parts = words(line);
            if parts.len() < 3 || parts[0] != connect_word() {
                Err(HttpRequestError::InvalidRequest)
            } else {
                let host_port = pieces(parts[1], ':');
                if host_port.len() != 2 {
                    Err(HttpRequestError::InvalidTarget)
                } else {
                    match parse_u16(host_port[1]) {
                        None => Err(HttpRequestError::InvalidPort),
                        Some(port) => Ok((host_port[0], port)),
                    }
                }
            }
        },
    }
}

/// Parses the first line of a `CONNECT` request into its target host and port.
pub fn parse_connect_request(request: &str) -> (r: Result<(String, u16), HttpRequestError>)
    ensures
        match (r, connect_target(request@)) {
            (Ok((host, port)), Ok((h, p))) => host@ == h && port == p,
            (Err(e), Err(f)) => e == f,
            _ => false,
        },
{
    let cs = chars_of(request);
    if cs.len() == 0 {
        return Err(HttpRequestError::EmptyRequest);
    }
    let end = first_line_end(&cs);
    let line = request.substring_char(0, end);
    let parts = split_whitespace(line);
    proof {
        reveal_strlit("CONNECT");
        assert("CONNECT"@ =~= connect_word());
        assert(line@ =~= request@.take(end as int));
        assert(string_views(parts@).len() == parts@.len());
    }
    if parts.len() < 3 {
        return Err(HttpRequestError::InvalidRequest);
    }
    assert(string_views(parts@)[0] == parts@[0]@);
    assert(string_views(parts@)[1] == parts@[1]@);
    if !str_eq(parts[0].as_str(), "CONNECT") {
        return Err(HttpRequestError::InvalidRequest);
    }
    let host_port = split_char(parts[1].as_str(), ':');
    assert(string_views(host_port@).len() == host_port@.len());
    if host_port.len() != 2 {
        return Err(HttpRequestError::InvalidTarget);
    }
    assert(string_views(host_port@)[0] == host_port@[0]@);
    assert(string_views(host_port@)[1] == host_port@[1]@);
    let port_chars = chars_of(host_port[1].as_str());
    assert(port_chars@.subrange(0, port_chars@.len() as int) =~= port_chars@);
    match parse_u16_chars(&port_chars, 0, port_chars.len()) {
        None => Err(HttpRequestError::InvalidPort),
        Some(port) => Ok((host_port[0].clone(), port)),
    }
}

} // verus!

verus! {

/// The text that `String::from_utf8_lossy` makes of `bytes`.
pub uninterp spec fn utf8_lossy(bytes: Seq<u8>) -> Seq<char>;

/// Calls `String::from_utf8_lossy`, which decodes UTF-8 and puts U+FFFD in
/// place of each invalid sequence. Claimed: the result is `utf8_lossy` of the
/// bytes, and for valid UTF-8 it is their plain decoding; what replaces an
/// invalid sequence is left to the name.
#[verifier::external_body]
fn decode_lossy(bytes: &[u8]) -> (r: String)
    ensures
        r@ == utf8_lossy(bytes@),
        valid_utf8(bytes@) ==> r@ == decode_utf8(bytes@),
{
    String::from_utf8_lossy(bytes).into_owned()
}

/// Whether a request's text begins with `CONNECT`.
pub open spec fn is_connect(text: Seq<char>) -> bool {
    7 <= text.len() && text.take(7) == connect_word()
}

/// What the proxy makes of a request's text: a tunnel request when the text
/// begins with `CONNECT` and names a target, the parse error when it begins
/// with `CONNECT` and names none, and an unsupported request otherwise.
pub open spec fn http_request_matches(r: Result<HttpRequest, HttpRequestError>, text: Seq<char>) -> bool {
    if is_connect(text) {
        match (r, connect_target(text)) {
            (Ok(HttpRequest::Connect { host, port }), Ok((h, p))) => host@ == h && port == p,
            (Err(e), Err(f)) => e == f,
            _ => false,
        }
    } else {
        r matches Ok(HttpRequest::Unsupported)
    }
}

/// Decides what to do with a request, given its text.
pub fn classify_http_request(request: &str) -> (r: Result<HttpRequest, HttpRequestError>)
    ensures
        http_request_matches(r, request@),
{
    proof {
        reveal_strlit("CONNECT");
        assert("CONNECT"@ =~= connect_word());
    }
    if str_starts_with(request, "CONNECT") {
        match parse_connect_request(request) {
            Ok((host, port)) => Ok(HttpRequest::Connect { host, port }),
            Err(e) => Err(e),
        }
    } else {
        Ok(HttpRequest::Unsupported)
    }
}

/// Decides what to do with a request, given the bytes read from the client,
/// which are decoded as `String::from_utf8_lossy` decodes them.
pub fn read_http_request(buffer: &[u8]) -> (r: Result<HttpRequest, HttpRequestError>)
    ensures
        http_request_matches(r, utf8_lossy(buffer@)),
        valid_utf8(buffer@) ==> http_request_matches(r, decode_utf8(buffer@)),
{
    let text = decode_lossy(buffer);
    classify_http_request(text.as_str())
}

} // verus!

verus! {

/// A `CONNECT` request line whose target is `host:port` and whose last
/// word is `version`: parsing it gives back the host and the port, for a
/// non-empty host free of whitespace, `:` and newlines and a non-empty
/// version free of whitespace.
pub proof fn law_connect_line_reads_back(host: Seq<char>, port: u16, version: Seq<char>)
    requires
        host.len() > 0,
        no_whitespace(host),
        lacks(host, ':'),
        version.len() > 0,
        no_whitespace(version),
    ensures
        ({
            let target = host + seq![':'] + decimal(port as nat);
            let line = connect_word() + seq![' '] + target + seq![' '] + version;
            is_connect(line) && connect_target(line) == Ok::<(Seq<char>, u16), HttpRequestError>((host, port))
        }),
{
    let d = decimal(port as nat);
    lemma_decimal_digits(port as nat);
    let target = host + seq![':'] + d;
    let line = connect_word() + seq![' '] + target + seq![' '] + version;
    let c = connect_word();
    assert(no_whitespace(c));
    assert(no_whitespace(d)) by {
        assert forall|i: int| 0 <= i < d.len() implies !is_whitespace(#[trigger] d[i]) by {
            assert(is_digit(d[i]));
        }
    }
    assert(no_whitespace(target)) by {
        assert forall|i: int| 0 <= i < target.len() implies !is_whitespace(#[trigger] target[i]) by {
            if i < host.len() {
                assert(target[i] == host[i]);
            } else if i > host.len() {
                assert(target[i] == d[i - host.len() - 1]);
            }
        }
    }
    assert(lacks(line, '\n')) by {
        assert forall|i: int| 0 <= i < line.len() implies #[trigger] line[i] != '\n' by {
            if i < 7 {
                assert(line[i] == c[i]);
            } else if 8 <= i < 8 + target.len() {
                assert(line[i] == target[i - 8]);
                assert(!is_whitespace(target[i - 8]));
            } else if i >= 9 + target.len() {
                assert(line[i] == version[i - 9 - target.len()]);
                assert(!is_whitespace(version[i - 9 - target.len()]));
            }
        }
    }
    assert(first_line(line) == Some(line));
    // the words of the line
    let rest1 = seq![' '] + target + seq![' '] + version;
    assert(line =~= c + rest1);
    lemma_words_from_run(c, rest1, seq![]);
    assert(Seq::<char>::empty() + c =~= c);
    assert(rest1.drop_first() =~= target + (seq![' '] + version));
    let rest2 = seq![' '] + version;
    lemma_words_from_run(target, rest2, seq![]);
    assert(Seq::<char>::empty() + target =~= target);
    assert(rest2.drop_first() =~= version + Seq::<char>::empty());
    lemma_words_from_run(version, Seq::<char>::empty(), seq![]);
    assert(Seq::<char>::empty() + version =~= version);
    assert(words_from(Seq::<char>::empty(), version) == seq![version]);
    assert(words_from(rest2, target) == seq![target] + words_from(version, seq![]));
    assert(version + Seq::<char>::empty() =~= version);
    assert(words_from(rest1, c) == seq![c] + words_from(target + rest2, seq![]));
    let parts = words(line);
    assert(parts =~= seq![c, target, version]);
    // the pieces of the target
    assert(lacks(d, ':')) by {
        assert forall|i: int| 0 <= i < d.len() implies #[trigger] d[i] != ':' by {
            assert(is_digit(d[i]));
        }
    }
    lemma_pieces_from_run(host, seq![':'] + d, seq![], ':');
    assert(target =~= host + (seq![':'] + d));
    assert(Seq::<char>::empty() + host =~= host);
    assert((seq![':'] + d).drop_first() =~= d + Seq::<char>::empty());
    lemma_pieces_from_run(d, Seq::<char>::empty(), seq![], ':');
    assert(Seq::<char>::empty() + d =~= d);
    assert(d + Seq::<char>::empty() =~= d);
    assert(pieces(target, ':') =~= seq![host, d]);
    law_decimal_reads_back(port);
    assert(line.take(7) =~= c);
}

} // verus!
