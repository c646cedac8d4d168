//! Per-connection decisions of the three tunnel kinds: which preamble goes
//! to each side before the relay starts, and how a static mapping names
//! its target. The relay itself only moves bytes and stays with the
//! caller.
use crate::handshake_codec::DecodeResult;
use crate::scan::rfind_index;
use crate::text::parse_port;
use vstd::prelude::*;

verus! {

/// The bytes `HTTP/1.1 200 Connection Established\r\n\r\n`, which answer
/// a successful CONNECT.
pub open spec fn established_response() -> Seq<u8> {
    seq![
        72u8,
        84,
        84,
        80,
        47,
        49,
        46,
        49,
        32,
        50,
        48,
        48,
        32,
        67,
        111,
        110,
        110,
        101,
        99,
        116,
        105,
        111,
        110,
        32,
        69,
        115,
        116,
        97,
        98,
        108,
        105,
        115,
        104,
        101,
        100,
        13,
        10,
        13,
        10,
    ]
}

/// The literal CONNECT answer, as bytes ready to write.
pub fn connect_established() -> (r: Vec<u8>)
    ensures
        r@ == established_response(),
{
    let v: Vec<u8> = vec![
        72u8, 84, 84, 80, 47, 49, 46, 49, 32, 50, 48, 48, 32, 67, 111, 110, 110, 101, 99, 116,
        105, 111, 110, 32, 69, 115, 116, 97, 98, 108, 105, 115, 104, 101, 100, 13, 10, 13, 10,
    ];
    proof {
        assert(v@ =~= established_response());
    }
    v
}

/// Everything a tunnel writes before the bidirectional relay starts:
/// the target to connect to, the bytes owed to the client, and the bytes
/// owed to the target.
pub struct TunnelPlan {
    pub host: String,
    pub port: u16,
    pub client_preamble: Vec<u8>,
    pub target_preamble: Vec<u8>,
}

/// Plan of the HTTP tunnel after a parsed head: a CONNECT is answered
/// with the literal established response and nothing is sent ahead to the
/// target; any other request sends the bytes already read past the head
/// to the target and nothing to the client.
pub fn plan_http(d: DecodeResult) -> (p: TunnelPlan)
    ensures
        p.host@ == d.host@,
        p.port == d.port,
        d.is_connect ==> p.client_preamble@ == established_response() && p.target_preamble@.len()
            == 0,
        !d.is_connect ==> p.client_preamble@.len() == 0 && p.target_preamble@
            == d.req_body_bytes@,
{
    if d.is_connect {
        TunnelPlan {
            host: d.host,
            port: d.port,
            client_preamble: connect_established(),
            target_preamble: Vec::new(),
        }
    } else {
        TunnelPlan {
            host: d.host,
            port: d.port,
            client_preamble: Vec::new(),
            target_preamble: d.req_body_bytes,
        }
    }
}

/// Plan of the TLS tunnel after a decoded ClientHello: connect to the SNI
/// host on port 443 (SNI conveys no port) and replay the raw record to
/// the target, byte for byte, before relaying.
pub fn plan_https(sni: String, raw_record: Vec<u8>) -> (p: TunnelPlan)
    ensures
        p.host@ == sni@,
        p.port == 443,
        p.client_preamble@.len() == 0,
        p.target_preamble@ == raw_record@,
{
    TunnelPlan { host: sni, port: 443, client_preamble: Vec::new(), target_preamble: raw_record }
}

/// Host and port of a static mapping, split at the final colon of
/// `remote_addr`; `None` when the colon is missing or the port does not
/// parse as `u16`.
pub open spec fn spec_remote_addr(s: Seq<char>) -> Option<(Seq<char>, u16)> {
    let n = s.len() as int;
    match rfind_index(s, 0, n, ':') {
        None => None,
        Some(i) => match parse_port(s, i + 1, n) {
            None => None,
            Some(p) => Some((s.subrange(0, i), p)),
        },
    }
}

/// Splits a configured `remote_addr` into host and port.
pub fn split_remote_addr(remote_addr: &str) -> (r: Option<(String, u16)>)
    ensures
        match spec_remote_addr(remote_addr@) {
            None => r is None,
            Some((h, p)) => r matches Some(hp) && hp.0@ == h && hp.1 == p,
        },
{
    let n = remote_addr.unicode_len();
    match crate::text::rscan_char(remote_addr, 0, n, ':') {
        None => None,
        Some(i) => match crate::text::scan_port(remote_addr, i + 1, n) {
            None => None,
            Some(p) => {
                let host = remote_addr.substring_char(0, i).to_owned();
                Some((host, p))
            },
        },
    }
}

} // verus!
