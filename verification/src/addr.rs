//! IPv4 socket addresses as plain values, and the literal-address parser
//! that decides when a host name needs no resolver at all.
use crate::scan::find_index;
use crate::text::{all_digits, dec_val, is_digit};
use vstd::prelude::*;

verus! {

/// An IPv4 socket address: four octets and a port.
#[derive(Clone, Copy, Debug, PartialEq, Eq)]
pub struct SockAddrV4 {
    pub ip: [u8; 4],
    pub port: u16,
}

/// The characters `s[from..to]` spell one dotted-quad octet: one to three
/// digits, no leading zero, worth at most 255.
pub open spec fn valid_octet(s: Seq<char>, from: int, to: int) -> bool {
    &&& 1 <= to - from <= 3
    &&& all_digits(s, from, to)
    &&& (to - from > 1 ==> s[from] != '0')
    &&& dec_val(s, from, to) <= 255
}

/// The four octets of a dotted-quad IPv4 literal, or `None` when the
/// characters spell anything else: exactly four octets, separated by
/// single dots, with nothing before, between or after.
pub open spec fn spec_parse_ipv4(s: Seq<char>) -> Option<(u8, u8, u8, u8)> {
    let n = s.len() as int;
    match find_index(s, 0, n, '.') {
        None => None,
        Some(d1) => match find_index(s, d1 + 1, n, '.') {
            None => None,
            Some(d2) => match find_index(s, d2 + 1, n, '.') {
                None => None,
                Some(d3) => if find_index(s, d3 + 1, n, '.') is Some {
                    None
                } else if valid_octet(s, 0, d1) && valid_octet(s, d1 + 1, d2) && valid_octet(
                    s,
                    d2 + 1,
                    d3,
                ) && valid_octet(s, d3 + 1, n) {
                    Some(
                        (
                            dec_val(s, 0, d1) as u8,
                            dec_val(s, d1 + 1, d2) as u8,
                            dec_val(s, d2 + 1, d3) as u8,
                            dec_val(s, d3 + 1, n) as u8,
                        ),
                    )
                } else {
                    None
                },
            },
        },
    }
}

/// Executable counterpart of [`valid_octet`]: the octet's value when the
/// characters `s[from..to]` are one.
fn scan_octet(s: &str, from: usize, to: usize) -> (r: Option<u8>)
    requires
        from <= to <= s@.len(),
    ensures
        valid_octet(s@, from as int, to as int) ==> r == Some(
            dec_val(s@, from as int, to as int) as u8,
        ),
        !valid_octet(s@, from as int, to as int) ==> r is None,
{
    if to - from < 1 || to - from > 3 {
        return None;
    }
    if to - from > 1 && s.get_char(from) == '0' {
        return None;
    }
    let mut i = from;
    let mut acc: u32 = 0;
    while i < to
        invariant
            from <= i <= to <= s@.len(),
            to - from <= 3,
            all_digits(s@, from as int, i as int),
            acc == dec_val(s@, from as int, i as int),
            i - from == 0 ==> acc == 0,
            i - from == 1 ==> acc <= 9,
            i - from == 2 ==> acc <= 99,
            i - from == 3 ==> acc <= 999,
        decreases to - i,
    {
        let c = s.get_char(i);
        if c < '0' || c > '9' {
            assert(!is_digit(s@[i as int]));
            return None;
        }
        let d: u32 = c as u32 - 48;
        acc = acc * 10 + d;
        i = i + 1;
    }
    if acc > 255 {
        return None;
    }
    Some(acc as u8)
}

/// The IPv4 literal the host name spells, if it spells one.
pub fn parse_ipv4(host: &str) -> (r: Option<[u8; 4]>)
    ensures
        match spec_parse_ipv4(host@) {
            None => r is None,
            Some((a, b, c, d)) => r matches Some(ip) && ip@ == seq![a, b, c, d],
        },
{
    let n = host.unicode_len();
    let d1 = match crate::text::scan_char(host, 0, n, '.') {
        None => {
            return None;
        },
        Some(i) => i,
    };
    let d2 = match crate::text::scan_char(host, d1 + 1, n, '.') {
        None => {
            return None;
        },
        Some(i) => i,
    };
    let d3 = match crate::text::scan_char(host, d2 + 1, n, '.') {
        None => {
            return None;
        },
        Some(i) => i,
    };
    if crate::text::scan_char(host, d3 + 1, n, '.').is_some() {
        return None;
    }
    let a = match scan_octet(host, 0, d1) {
        None => {
            return None;
        },
        Some(v) => v,
    };
    let b = match scan_octet(host, d1 + 1, d2) {
        None => {
            return None;
        },
        Some(v) => v,
    };
    let c = match scan_octet(host, d2 + 1, d3) {
        None => {
            return None;
        },
        Some(v) => v,
    };
    let d = match scan_octet(host, d3 + 1, n) {
        None => {
            return None;
        },
        Some(v) => v,
    };
    let ip = [a, b, c, d];
    proof {
        assert(ip@ =~= seq![a, b, c, d]);
    }
    Some(ip)
}

} // verus!
