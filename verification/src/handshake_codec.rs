//! Streaming decoder for an HTTP/1.x forward-proxy request head: it watches
//! a growing byte buffer for the blank-line terminator, parses the request
//! line and the headers, and yields the tunnel target together with every
//! byte that was read past the head.
use crate::scan::{find_crlf, find_head_end, find_index, is_head_end_at, COLON, SP};
use crate::text::{parse_port, utf8_string};
use vstd::prelude::*;
use vstd::utf8::{decode_utf8, valid_utf8};

verus! {

/// Size of the read buffer a caller should start with.
pub const INIT_HEADER_BUF_SIZE: usize = 4096;

/// A head that is still incomplete at this size is rejected.
pub const MAX_HEADER_SIZE: usize = 1048575;

/// Why a request head was rejected.
#[derive(Clone, Copy, Debug, PartialEq, Eq, Structural)]
pub enum DecodeError {
    /// The buffer reached [`MAX_HEADER_SIZE`] with no terminator in sight.
    HeaderTooLarge,
    /// A non-CONNECT request carried no usable `Host` header.
    MissingHost,
    /// The target carried an explicit port that does not parse as `u16`.
    BadPort,
    /// The head does not parse as an HTTP/1.x request.
    BadMessage,
}

/// The port used when the target names none: 443 for a host that begins
/// with the literal prefix `https`, 80 for every other host.
pub open spec fn default_port(host: Seq<char>) -> u16 {
    if host.len() >= 5 && host[0] == 'h' && host[1] == 't' && host[2] == 't' && host[3] == 'p'
        && host[4] == 's' {
        443
    } else {
        80
    }
}

/// Host and port denoted by a target of the form `host[:port]`: the host is
/// everything before the first colon; the port is what stands between the
/// first colon and the next one (or the end), or the default when there is
/// no colon at all. `None` when an explicit port fails to parse.
pub open spec fn spec_host_port(line: Seq<char>) -> Option<(Seq<char>, u16)> {
    let n = line.len() as int;
    match find_index(line, 0, n, ':') {
        None => Some((line, default_port(line))),
        Some(i) => {
            let end = match find_index(line, i + 1, n, ':') {
                None => n,
                Some(j) => j,
            };
            match parse_port(line, i + 1, end) {
                None => None,
                Some(p) => Some((line.subrange(0, i), p)),
            }
        },
    }
}

/// Splits a request target or `Host` value into host and port.
pub fn extract_host_and_port(line: &str) -> (r: Result<(String, u16), DecodeError>)
    ensures
        match spec_host_port(line@) {
            Some((h, p)) => r matches Ok(hp) && hp.0@ == h && hp.1 == p,
            None => r == Err::<(String, u16), DecodeError>(DecodeError::BadPort),
        },
{
    let n = line.unicode_len();
    match crate::text::scan_char(line, 0, n, ':') {
        None => {
            let port: u16 = if n >= 5 && line.get_char(0) == 'h' && line.get_char(1) == 't'
                && line.get_char(2) == 't' && line.get_char(3) == 'p' && line.get_char(4) == 's' {
                443
            } else {
                80
            };
            Ok((line.to_owned(), port))
        },
        Some(i) => {
            let end = match crate::text::scan_char(line, i + 1, n, ':') {
                None => n,
                Some(j) => j,
            };
            match crate::text::scan_port(line, i + 1, end) {
                None => Err(DecodeError::BadPort),
                Some(p) => {
                    let host = line.substring_char(0, i).to_owned();
                    Ok((host, p))
                },
            }
        },
    }
}

pub open spec fn is_printable(b: u8) -> bool {
    33 <= b && b <= 126
}

pub open spec fn all_printable(s: Seq<u8>, from: int, to: int) -> bool {
    forall|j: int| from <= j < to ==> is_printable(#[trigger] s[j])
}

/// Lower-case image of an ASCII byte.
pub open spec fn ascii_lower(b: u8) -> u8 {
    if 65 <= b && b <= 90 {
        (b + 32) as u8
    } else {
        b
    }
}

/// The bytes `s[from..to]` spell `CONNECT`, in any letter case.
pub open spec fn is_connect_method(s: Seq<u8>, from: int, to: int) -> bool {
    &&& to - from == 7
    &&& ascii_lower(s[from]) == 'c' as u8
    &&& ascii_lower(s[from + 1]) == 'o' as u8
    &&& ascii_lower(s[from + 2]) == 'n' as u8
    &&& ascii_lower(s[from + 3]) == 'n' as u8
    &&& ascii_lower(s[from + 4]) == 'e' as u8
    &&& ascii_lower(s[from + 5]) == 'c' as u8
    &&& ascii_lower(s[from + 6]) == 't' as u8
}

/// The bytes `s[from..to]` spell `HTTP/1.0` or `HTTP/1.1`.
pub open spec fn is_http_version(s: Seq<u8>, from: int, to: int) -> bool {
    &&& to - from == 8
    &&& s[from] == 'H' as u8
    &&& s[from + 1] == 'T' as u8
    &&& s[from + 2] == 'T' as u8
    &&& s[from + 3] == 'P' as u8
    &&& s[from + 4] == '/' as u8
    &&& s[from + 5] == '1' as u8
    &&& s[from + 6] == '.' as u8
    &&& (s[from + 7] == '0' as u8 || s[from + 7] == '1' as u8)
}

/// The header name `s[from..to]` is `Host`, in any letter case.
pub open spec fn is_host_name(s: Seq<u8>, from: int, to: int) -> bool {
    &&& to - from == 4
    &&& ascii_lower(s[from]) == 'h' as u8
    &&& ascii_lower(s[from + 1]) == 'o' as u8
    &&& ascii_lower(s[from + 2]) == 's' as u8
    &&& ascii_lower(s[from + 3]) == 't' as u8
}

/// What a walk over the header lines finds. The head terminator stands at
/// `hb`, so the lines occupy `s[i..hb + 2]` and each ends with CR LF.
pub ghost enum HeaderScan {
    /// Some line has no CR LF structure, no colon, or an empty name.
    Bad,
    /// Every line is well-formed; none carries a usable `Host` value.
    NoHost,
    /// Every line is well-formed; the first `Host` header whose trimmed
    /// value is valid UTF-8 holds it at `s[lo..hi]`.
    Host { lo: int, hi: int },
}

/// Walks the header lines from `i`, validating each and looking for the
/// first usable `Host` value, exactly as [`HandshakeCodec::decode`] does.
pub open spec fn scan_headers(s: Seq<u8>, i: int, hb: int) -> HeaderScan
    decreases hb + 2 - i,
    via scan_headers_decreases
{
    if i == hb + 2 {
        HeaderScan::NoHost
    } else if !(0 <= i && i < hb + 2) {
        HeaderScan::Bad
    } else {
        match find_crlf(s, i, hb + 2) {
            None => HeaderScan::Bad,
            Some(j) => match find_index(s, i, j, COLON) {
                None => HeaderScan::Bad,
                Some(k) => if k == i {
                    HeaderScan::Bad
                } else {
                    let lo = crate::scan::skip_ws(s, k + 1, j);
                    let hi = crate::scan::rskip_ws(s, lo, j);
                    if is_host_name(s, i, k) && valid_utf8(s.subrange(lo, hi)) {
                        match scan_headers(s, j + 2, hb) {
                            HeaderScan::Bad => HeaderScan::Bad,
                            _ => HeaderScan::Host { lo, hi },
                        }
                    } else {
                        scan_headers(s, j + 2, hb)
                    }
                },
            },
        }
    }
}

#[via_fn]
proof fn scan_headers_decreases(s: Seq<u8>, i: int, hb: int) {
    if i != hb + 2 && 0 <= i && i < hb + 2 {
        match find_crlf(s, i, hb + 2) {
            None => {},
            Some(j) => {
                crate::scan::lemma_find_crlf_some(s, i, hb + 2);
            },
        }
    }
}

/// Everything [`HandshakeCodec::decode`] can say about a buffer.
pub ghost enum HeadOutcome {
    /// No terminator yet and the buffer is still below the size cap.
    Incomplete,
    /// No terminator and the buffer has reached [`MAX_HEADER_SIZE`].
    TooLarge,
    /// A terminator stands in the buffer but the head is malformed.
    Bad,
    /// A well-formed non-CONNECT head without a usable `Host` header.
    NoHost,
    /// The target names an explicit port that does not parse as `u16`.
    BadPort,
    /// A well-formed head: the head occupies `header_len` bytes and names
    /// this method and tunnel target.
    Parsed { header_len: int, method: Seq<char>, is_connect: bool, host: Seq<char>, port: u16 },
}

/// Host and port of a parsed head, or the error that hides them.
pub open spec fn spec_target(
    hb: int,
    method: Seq<char>,
    is_connect: bool,
    target: Seq<char>,
) -> HeadOutcome {
    match spec_host_port(target) {
        None => HeadOutcome::BadPort,
        Some((h, p)) => HeadOutcome::Parsed {
            header_len: hb + 4,
            method,
            is_connect,
            host: h,
            port: p,
        },
    }
}

/// Meaning of a buffer whose first head terminator stands at `hb`: the
/// request line must read `method target version`, every header line must
/// be well-formed, and the tunnel target is the request-line target for a
/// CONNECT, the first usable `Host` value otherwise.
pub open spec fn spec_parse_head(s: Seq<u8>, hb: int) -> HeadOutcome {
    match find_crlf(s, 0, hb + 2) {
        None => HeadOutcome::Bad,
        Some(rl) => match find_index(s, 0, rl, SP) {
            None => HeadOutcome::Bad,
            Some(m) => if !(m >= 1 && all_printable(s, 0, m)) {
                HeadOutcome::Bad
            } else {
                match find_index(s, m + 1, rl, SP) {
                    None => HeadOutcome::Bad,
                    Some(t) => if !(t > m + 1 && all_printable(s, m + 1, t) && is_http_version(
                        s,
                        t + 1,
                        rl,
                    )) {
                        HeadOutcome::Bad
                    } else {
                        let method = decode_utf8(s.subrange(0, m));
                        match scan_headers(s, rl + 2, hb) {
                            HeaderScan::Bad => HeadOutcome::Bad,
                            HeaderScan::NoHost => if is_connect_method(s, 0, m) {
                                spec_target(hb, method, true, decode_utf8(s.subrange(m + 1, t)))
                            } else {
                                HeadOutcome::NoHost
                            },
                            HeaderScan::Host { lo, hi } => if is_connect_method(s, 0, m) {
                                spec_target(hb, method, true, decode_utf8(s.subrange(m + 1, t)))
                            } else {
                                spec_target(hb, method, false, decode_utf8(s.subrange(lo, hi)))
                            },
                        }
                    },
                }
            },
        },
    }
}

/// Complete meaning of one decoder call on the buffer `s`.
pub open spec fn spec_decode_head(s: Seq<u8>) -> HeadOutcome {
    match find_head_end(s, 0, s.len() as int) {
        None => if s.len() >= MAX_HEADER_SIZE as int {
            HeadOutcome::TooLarge
        } else {
            HeadOutcome::Incomplete
        },
        Some(hb) => spec_parse_head(s, hb),
    }
}

/// Executable counterpart of [`ascii_lower`].
fn lower_byte(b: u8) -> (r: u8)
    ensures
        r == ascii_lower(b),
{
    if 65 <= b && b <= 90 {
        b + 32
    } else {
        b
    }
}

/// Executable counterpart of [`all_printable`].
fn check_printable(v: &Vec<u8>, from: usize, to: usize) -> (r: bool)
    requires
        from <= to <= v@.len(),
    ensures
        r == all_printable(v@, from as int, to as int),
{
    let mut i = from;
    while i < to
        invariant
            from <= i <= to <= v@.len(),
            all_printable(v@, from as int, i as int),
        decreases to - i,
    {
        if v[i] < 33 || v[i] > 126 {
            assert(!is_printable(v@[i as int]));
            return false;
        }
        i = i + 1;
    }
    true
}

/// Executable counterpart of [`is_connect_method`].
fn check_connect(v: &Vec<u8>, from: usize, to: usize) -> (r: bool)
    requires
        from <= to <= v@.len(),
    ensures
        r == is_connect_method(v@, from as int, to as int),
{
    to - from == 7 && lower_byte(v[from]) == 99 && lower_byte(v[from + 1]) == 111 && lower_byte(
        v[from + 2],
    ) == 110 && lower_byte(v[from + 3]) == 110 && lower_byte(v[from + 4]) == 101 && lower_byte(
        v[from + 5],
    ) == 99 && lower_byte(v[from + 6]) == 116
}

/// Executable counterpart of [`is_http_version`].
fn check_version(v: &Vec<u8>, from: usize, to: usize) -> (r: bool)
    requires
        from <= to <= v@.len(),
    ensures
        r == is_http_version(v@, from as int, to as int),
{
    to - from == 8 && v[from] == 72 && v[from + 1] == 84 && v[from + 2] == 84 && v[from + 3] == 80
        && v[from + 4] == 47 && v[from + 5] == 49 && v[from + 6] == 46 && (v[from + 7] == 48 || v[from
        + 7] == 49)
}

/// Executable counterpart of [`is_host_name`].
fn check_host_name(v: &Vec<u8>, from: usize, to: usize) -> (r: bool)
    requires
        from <= to <= v@.len(),
    ensures
        r == is_host_name(v@, from as int, to as int),
{
    to - from == 4 && lower_byte(v[from]) == 104 && lower_byte(v[from + 1]) == 111 && lower_byte(
        v[from + 2],
    ) == 115 && lower_byte(v[from + 3]) == 116
}

/// A parsed request head: the tunnel target, the method, how many bytes
/// the head occupied, and every byte that had already been read past it.
#[derive(Debug, PartialEq, Eq)]
pub struct DecodeResult {
    pub is_connect: bool,
    pub host: String,
    pub port: u16,
    pub method: String,
    pub header_len: usize,
    pub req_body_bytes: Vec<u8>,
}

/// Streaming framer for the HTTP request head. Call [`Self::decode`] each
/// time more bytes arrive; it answers `Ok(None)` until a whole head is in
/// the buffer.
pub struct HandshakeCodec {}

impl HandshakeCodec {
    pub fn new() -> (c: Self) {
        Self {  }
    }

    /// One framing attempt over the buffered bytes, as [`spec_decode_head`]
    /// describes: `Ok(None)` while the head is incomplete (the buffer is
    /// kept), `Ok(Some(..))` once it parses (the buffer is drained into
    /// `req_body_bytes`), and the precise [`DecodeError`] otherwise.
    #[verifier::loop_isolation(false)]
    pub fn decode(&mut self, src: &mut Vec<u8>) -> (r: Result<Option<DecodeResult>, DecodeError>)
        ensures
            match spec_decode_head(old(src)@) {
                HeadOutcome::Incomplete => r matches Ok(o) && o is None
                    && final(src)@ == old(src)@,
                HeadOutcome::TooLarge => r matches Err(e) && e == DecodeError::HeaderTooLarge
                    && final(src)@ == old(src)@,
                HeadOutcome::Bad => r matches Err(e) && e == DecodeError::BadMessage
                    && final(src)@ == old(src)@,
                HeadOutcome::NoHost => r matches Err(e) && e == DecodeError::MissingHost
                    && final(src)@ == old(src)@,
                HeadOutcome::BadPort => r matches Err(e) && e == DecodeError::BadPort
                    && final(src)@ == old(src)@,
                HeadOutcome::Parsed { header_len, method, is_connect, host, port } => {
                    &&& r matches Ok(Some(d))
                    &&& d.header_len == header_len
                    &&& d.method@ == method
                    &&& d.is_connect == is_connect
                    &&& d.host@ == host
                    &&& d.port == port
                    &&& d.req_body_bytes@ == old(src)@.subrange(
                        header_len,
                        old(src)@.len() as int,
                    )
                    &&& final(src)@.len() == 0
                },
            },
    {
        let n = src.len();
        let hb = match crate::scan::scan_head_end(src, 0, n) {
            None => {
                if n >= MAX_HEADER_SIZE {
                    return Err(DecodeError::HeaderTooLarge);
                }
                return Ok(None);
            },
            Some(hb) => hb,
        };
        let rl = match crate::scan::scan_crlf(src, 0, hb + 2) {
            None => {
                return Err(DecodeError::BadMessage);
            },
            Some(rl) => rl,
        };
        let m = match crate::scan::scan_byte(src, 0, rl, SP) {
            None => {
                return Err(DecodeError::BadMessage);
            },
            Some(m) => m,
        };
        if m < 1 || !check_printable(src, 0, m) {
            return Err(DecodeError::BadMessage);
        }
        let t = match crate::scan::scan_byte(src, m + 1, rl, SP) {
            None => {
                return Err(DecodeError::BadMessage);
            },
            Some(t) => t,
        };
        if t == m + 1 || !check_printable(src, m + 1, t) {
            return Err(DecodeError::BadMessage);
        }
        if rl - t != 9 || !check_version(src, t + 1, rl) {
            return Err(DecodeError::BadMessage);
        }
        let mut i = rl + 2;
        let mut host_str: Option<String> = None;
        let ghost mut host_lo: int = 0;
        let ghost mut host_hi: int = 0;
        while i < hb + 2
            invariant
                rl + 2 <= i <= hb + 2,
                match host_str {
                    None => scan_headers(src@, rl + 2 as int, hb as int) == scan_headers(
                        src@,
                        i as int,
                        hb as int,
                    ),
                    Some(hs) => {
                        &&& scan_headers(src@, rl + 2 as int, hb as int) == (match scan_headers(
                            src@,
                            i as int,
                            hb as int,
                        ) {
                            HeaderScan::Bad => HeaderScan::Bad,
                            _ => HeaderScan::Host { lo: host_lo, hi: host_hi },
                        })
                        &&& 0 <= host_lo <= host_hi <= src@.len()
                        &&& valid_utf8(src@.subrange(host_lo, host_hi))
                        &&& hs@ == decode_utf8(src@.subrange(host_lo, host_hi))
                    },
                },
            decreases hb + 2 - i,
        {
            let j = match crate::scan::scan_crlf(src, i, hb + 2) {
                None => {
                    return Err(DecodeError::BadMessage);
                },
                Some(j) => j,
            };
            let k = match crate::scan::scan_byte(src, i, j, COLON) {
                None => {
                    return Err(DecodeError::BadMessage);
                },
                Some(k) => k,
            };
            if k == i {
                return Err(DecodeError::BadMessage);
            }
            if host_str.is_none() && check_host_name(src, i, k) {
                let lo = crate::scan::scan_skip_ws(src, k + 1, j);
                let hi = crate::scan::scan_rskip_ws(src, lo, j);
                let value = crate::scan::copy_range(src, lo, hi);
                match crate::text::utf8_string(&value) {
                    Some(hs) => {
                        host_str = Some(hs);
                        proof {
                            host_lo = lo as int;
                            host_hi = hi as int;
                        }
                    },
                    None => {},
                }
            }
            i = j + 2;
        }
        let method_bytes = crate::scan::copy_range(src, 0, m);
        proof {
            assert(forall|q: int| 0 <= q < method_bytes@.len() ==> #[trigger] method_bytes@[q]
                < 128) by {
                assert(forall|q: int| 0 <= q < m ==> is_printable(#[trigger] src@[q]));
            }
            crate::text::lemma_ascii_valid_utf8(method_bytes@);
        }
        let method = match crate::text::utf8_string(&method_bytes) {
            Some(s2) => s2,
            None => {
                // printable ASCII is valid UTF-8, so this arm is unreachable
                proof {
                    assert(false);
                }
                return Err(DecodeError::BadMessage);
            },
        };
        let is_connect = check_connect(src, 0, m);
        let target_str: String = if is_connect {
            let target_bytes = crate::scan::copy_range(src, m + 1, t);
            proof {
                assert(forall|q: int| 0 <= q < target_bytes@.len() ==> #[trigger] target_bytes@[q]
                    < 128) by {
                    assert(forall|q: int| m + 1 <= q < t ==> is_printable(#[trigger] src@[q]));
                }
                crate::text::lemma_ascii_valid_utf8(target_bytes@);
            }
            match crate::text::utf8_string(&target_bytes) {
                Some(s2) => s2,
                None => {
                    // printable ASCII is valid UTF-8, so this arm is unreachable
                    proof {
                        assert(false);
                    }
                    return Err(DecodeError::BadMessage);
                },
            }
        } else {
            match host_str {
                None => {
                    return Err(DecodeError::MissingHost);
                },
                Some(hs) => hs,
            }
        };
        let (host, port) = match extract_host_and_port(target_str.as_str()) {
            Err(e) => {
                return Err(e);
            },
            Ok(hp) => hp,
        };
        let req_body_bytes = src.split_off(hb + 4);
        src.clear();
        Ok(
            Some(
                DecodeResult {
                    is_connect,
                    host,
                    port,
                    method,
                    header_len: hb + 4,
                    req_body_bytes,
                },
            ),
        )
    }
}

/// Law: in a buffer that begins with a complete head — `hl` bytes whose
/// last four are the terminator, with no terminator earlier — followed by
/// any bytes at all, the decoder frames exactly the first `hl` bytes.
/// With [`HandshakeCodec::decode`]'s contract: a parsed head consumes
/// `header_len == hl` and hands back everything after it, unchanged, as
/// `req_body_bytes`.
pub proof fn lemma_head_boundary(s: Seq<u8>, hl: int)
    requires
        4 <= hl <= s.len(),
        is_head_end_at(s, hl - 4),
        forall|j: int| 0 <= j < hl - 4 ==> !is_head_end_at(s, j),
    ensures
        find_head_end(s, 0, s.len() as int) == Some(hl - 4),
        spec_decode_head(s) matches HeadOutcome::Parsed { header_len, .. } ==> header_len == hl,
{
    crate::scan::lemma_find_head_end_skip(s, 0, hl - 4, s.len() as int);
}

} // verus!
