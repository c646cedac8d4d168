//! Streaming decoder for one TLS record: it frames the record, checks that
//! it carries a ClientHello handshake message, walks the extensions for the
//! first server-name entry, and yields the SNI hostname together with the
//! raw record bytes, untouched, for verbatim replay.
use crate::scan::{be16, be24, copy_range, read_be16, read_be24};
use crate::text::utf8_string;
use vstd::prelude::*;
use vstd::utf8::{decode_utf8, valid_utf8};

verus! {

/// TLS ContentType for handshake records.
pub const CONTENT_TYPE_HANDSHAKE: u8 = 22;

/// TLS HandshakeType for a ClientHello message.
pub const HANDSHAKE_CLIENT_HELLO: u8 = 1;

/// An SNI hostname.
pub type Sni = String;

/// Why a TLS record was rejected.
#[derive(Clone, Copy, Debug, PartialEq, Eq, Structural)]
pub enum TlsDecodeError {
    /// The record's content type is not Handshake.
    NotHandshake,
    /// The record does not hold a well-formed ClientHello message.
    NotClientHello,
    /// The ClientHello carries no usable server-name entry.
    NoSni,
}

/// What a walk over the extension vector `s[p..end]` finds.
pub ghost enum SniSearch {
    /// The vector is well-formed but holds no usable server-name entry.
    NoneFound,
    /// An extension header or length oversteps the vector.
    BadVector,
    /// The first server-name extension names a host at `s[lo..hi]`.
    Found { lo: int, hi: int },
}

/// The first server-name entry of a server-name extension whose data is
/// `s[d..d + el]`: a list length, then one entry of type, length and
/// hostname bytes. A malformed or empty entry counts as no entry.
pub open spec fn parse_sni_data(s: Seq<u8>, d: int, el: int) -> SniSearch {
    if el < 2 {
        SniSearch::NoneFound
    } else {
        let ll = be16(s, d);
        if 2 + ll != el || ll < 3 {
            SniSearch::NoneFound
        } else {
            let nlen = be16(s, d + 3);
            if 3 + nlen > ll || nlen == 0 {
                SniSearch::NoneFound
            } else {
                SniSearch::Found { lo: d + 5, hi: d + 5 + nlen }
            }
        }
    }
}

/// Walks the extension vector `s[p..end]` for the first server-name
/// extension (type 0), exactly as [`TlsCodec::decode`] does.
pub open spec fn find_sni_ext(s: Seq<u8>, p: int, end: int) -> SniSearch
    decreases end - p,
{
    if p == end {
        SniSearch::NoneFound
    } else if !(0 <= p && p + 4 <= end) {
        SniSearch::BadVector
    } else {
        let et = be16(s, p);
        let el = be16(s, p + 2);
        if p + 4 + el > end {
            SniSearch::BadVector
        } else if et == 0 {
            parse_sni_data(s, p + 4, el)
        } else {
            find_sni_ext(s, p + 4 + el, end)
        }
    }
}

/// Everything [`TlsCodec::decode`] can say about a buffer.
pub ghost enum TlsOutcome {
    /// Fewer than five bytes, or fewer than the record announces.
    Incomplete,
    /// The first byte is not the Handshake content type.
    NotHandshake,
    /// The record is complete but not a well-formed ClientHello.
    NotClientHello,
    /// A well-formed ClientHello without a usable server name.
    NoSni,
    /// A ClientHello naming `sni`; the record occupies `record_len` bytes.
    Parsed { record_len: int, sni: Seq<char> },
}

/// Meaning of a complete handshake record (header plus `len_r` body bytes):
/// the body must hold exactly one ClientHello message, whose session id,
/// cipher suites and compression methods are skipped to reach the
/// extension vector, which must fill the rest of the message.
pub open spec fn spec_parse_hello(s: Seq<u8>) -> TlsOutcome {
    let len_r = be16(s, 3);
    let hlen = be24(s, 6);
    let me = 9 + hlen;
    if len_r < 4 || s[5] != HANDSHAKE_CLIENT_HELLO || 4 + hlen > len_r || 44 > me {
        TlsOutcome::NotClientHello
    } else {
        let p = 44 + s[43];
        if p + 2 > me {
            TlsOutcome::NotClientHello
        } else {
            let p2 = p + 2 + be16(s, p);
            if p2 + 1 > me {
                TlsOutcome::NotClientHello
            } else {
                let p3 = p2 + 1 + s[p2];
                if p3 > me {
                    TlsOutcome::NotClientHello
                } else if p3 == me {
                    TlsOutcome::NoSni
                } else if p3 + 2 > me || p3 + 2 + be16(s, p3) != me {
                    TlsOutcome::NotClientHello
                } else {
                    match find_sni_ext(s, p3 + 2, me) {
                        SniSearch::BadVector => TlsOutcome::NotClientHello,
                        SniSearch::NoneFound => TlsOutcome::NoSni,
                        SniSearch::Found { lo, hi } => if valid_utf8(s.subrange(lo, hi)) {
                            TlsOutcome::Parsed {
                                record_len: 5 + len_r,
                                sni: decode_utf8(s.subrange(lo, hi)),
                            }
                        } else {
                            TlsOutcome::NoSni
                        },
                    }
                }
            }
        }
    }
}

/// Complete meaning of one decoder call on the buffer `s`: fewer than five
/// bytes or fewer than the record announces is incomplete; the content
/// type is checked first, then the ClientHello inside the record.
pub open spec fn spec_decode_tls(s: Seq<u8>) -> TlsOutcome {
    if s.len() < 5 {
        TlsOutcome::Incomplete
    } else if s[0] != CONTENT_TYPE_HANDSHAKE {
        TlsOutcome::NotHandshake
    } else if s.len() < 5 + be16(s, 3) {
        TlsOutcome::Incomplete
    } else {
        spec_parse_hello(s)
    }
}

/// Streaming framer for the TLS ClientHello. Call [`Self::decode`] each
/// time more bytes arrive; it answers `Ok(None)` until a whole record is
/// in the buffer.
pub struct TlsCodec {}

impl TlsCodec {
    pub fn new() -> (c: Self) {
        Self {  }
    }

    /// One framing attempt over the buffered bytes, as [`spec_decode_tls`]
    /// describes. On success the record's bytes leave the buffer and come
    /// back verbatim beside the SNI; bytes past the record stay buffered.
    #[verifier::loop_isolation(false)]
    #[verifier::rlimit(60)]
    pub fn decode(&mut self, src: &mut Vec<u8>) -> (r: Result<
        Option<(Sni, Vec<u8>)>,
        TlsDecodeError,
    >)
        ensures
            match spec_decode_tls(old(src)@) {
                TlsOutcome::Incomplete => r matches Ok(o) && o is None && final(src)@ == old(src)@,
                TlsOutcome::NotHandshake => r matches Err(e) && e == TlsDecodeError::NotHandshake
                    && final(src)@ == old(src)@,
                TlsOutcome::NotClientHello => r matches Err(e) && e
                    == TlsDecodeError::NotClientHello && final(src)@ == old(src)@,
                TlsOutcome::NoSni => r matches Err(e) && e == TlsDecodeError::NoSni && final(src)@
                    == old(src)@,
                TlsOutcome::Parsed { record_len, sni } => {
                    &&& r matches Ok(Some(pair))
                    &&& pair.0@ == sni
                    &&& pair.1@ == old(src)@.subrange(0, record_len)
                    &&& final(src)@ == old(src)@.subrange(record_len, old(src)@.len() as int)
                },
            },
    {
        let n = src.len();
        if n < 5 {
            return Ok(None);
        }
        if src[0] != CONTENT_TYPE_HANDSHAKE {
            return Err(TlsDecodeError::NotHandshake);
        }
        let len_r = read_be16(src, 3) as usize;
        if n < 5 + len_r {
            return Ok(None);
        }
        let total = 5 + len_r;
        if len_r < 4 || src[5] != HANDSHAKE_CLIENT_HELLO {
            return Err(TlsDecodeError::NotClientHello);
        }
        let hlen = read_be24(src, 6) as usize;
        if 4 + hlen > len_r {
            return Err(TlsDecodeError::NotClientHello);
        }
        let me = 9 + hlen;
        if 44 > me {
            return Err(TlsDecodeError::NotClientHello);
        }
        let p = 44 + (src[43] as usize);
        if p + 2 > me {
            return Err(TlsDecodeError::NotClientHello);
        }
        let p2 = p + 2 + (read_be16(src, p) as usize);
        if p2 + 1 > me {
            return Err(TlsDecodeError::NotClientHello);
        }
        let p3 = p2 + 1 + (src[p2] as usize);
        if p3 > me {
            return Err(TlsDecodeError::NotClientHello);
        }
        if p3 == me {
            return Err(TlsDecodeError::NoSni);
        }
        if p3 + 2 > me {
            return Err(TlsDecodeError::NotClientHello);
        }
        let el = read_be16(src, p3) as usize;
        if p3 + 2 + el != me {
            return Err(TlsDecodeError::NotClientHello);
        }
        let mut q = p3 + 2;
        while q != me
            invariant
                src@ == old(src)@,
                p3 + 2 <= q <= me <= n == src@.len(),
                find_sni_ext(src@, p3 + 2 as int, me as int) == find_sni_ext(
                    src@,
                    q as int,
                    me as int,
                ),
            decreases me - q,
        {
            if q + 4 > me {
                return Err(TlsDecodeError::NotClientHello);
            }
            let et = read_be16(src, q);
            let el2 = read_be16(src, q + 2) as usize;
            if q + 4 + el2 > me {
                return Err(TlsDecodeError::NotClientHello);
            }
            if et == 0 {
                let d = q + 4;
                if el2 < 2 {
                    return Err(TlsDecodeError::NoSni);
                }
                let ll = read_be16(src, d) as usize;
                if 2 + ll != el2 || ll < 3 {
                    return Err(TlsDecodeError::NoSni);
                }
                let nlen = read_be16(src, d + 3) as usize;
                if 3 + nlen > ll || nlen == 0 {
                    return Err(TlsDecodeError::NoSni);
                }
                let lo = d + 5;
                let hi = lo + nlen;
                let name = copy_range(src, lo, hi);
                match utf8_string(&name) {
                    None => {
                        return Err(TlsDecodeError::NoSni);
                    },
                    Some(sni) => {
                        let raw = copy_range(src, 0, total);
                        let rest = src.split_off(total);
                        *src = rest;
                        return Ok(Some((sni, raw)));
                    },
                }
            }
            q = q + 4 + el2;
        }
        Err(TlsDecodeError::NoSni)
    }
}

} // verus!
