//! Character-level helpers: decimal runs and port numbers, single-character
//! scans over `&str`, and the bridge from raw bytes to `String` values.
use crate::scan::{find_index, rfind_index};
use vstd::prelude::*;
use vstd::string::StringSliceAdditionalSpecFns;
use vstd::utf8::{
    decode_utf8, encode_utf8, encode_utf8_decode_utf8, encode_utf8_valid_utf8, is_ascii_chars,
    is_ascii_chars_encode_utf8, valid_utf8,
};

verus! {

pub open spec fn is_digit(c: char) -> bool {
    '0' <= c && c <= '9'
}

pub open spec fn digit_val(c: char) -> int {
    c as int - 48
}

pub open spec fn all_digits(s: Seq<char>, from: int, to: int) -> bool {
    forall|j: int| from <= j < to ==> is_digit(#[trigger] s[j])
}

/// Value of the decimal digit run `s[from..to]`, most significant first.
pub open spec fn dec_val(s: Seq<char>, from: int, to: int) -> int
    decreases to - from,
{
    if from >= to {
        0
    } else {
        dec_val(s, from, to - 1) * 10 + digit_val(s[to - 1])
    }
}

pub proof fn lemma_dec_val_nonneg(s: Seq<char>, from: int, to: int)
    requires
        all_digits(s, from, to),
    ensures
        dec_val(s, from, to) >= 0,
    decreases to - from,
{
    if from < to {
        lemma_dec_val_nonneg(s, from, to - 1);
    }
}

/// A digit run is worth at least as much as any of its prefixes.
pub proof fn lemma_dec_val_monotone(s: Seq<char>, from: int, mid: int, to: int)
    requires
        from <= mid <= to,
        all_digits(s, from, to),
    ensures
        dec_val(s, from, to) >= dec_val(s, from, mid),
    decreases to - mid,
{
    if mid < to {
        lemma_dec_val_monotone(s, from, mid, to - 1);
        lemma_dec_val_nonneg(s, from, to - 1);
    }
}

/// The port spelled by `s[from..to]`: a non-empty, all-digit run worth at
/// most 65535 (leading zeros are allowed); `None` otherwise.
pub open spec fn parse_port(s: Seq<char>, from: int, to: int) -> Option<u16> {
    if from < to && all_digits(s, from, to) && dec_val(s, from, to) <= 65535 {
        Some(dec_val(s, from, to) as u16)
    } else {
        None
    }
}

/// Executable counterpart of [`parse_port`] on a string slice.
pub fn scan_port(s: &str, from: usize, to: usize) -> (r: Option<u16>)
    requires
        from <= to <= s@.len(),
    ensures
        r == parse_port(s@, from as int, to as int),
{
    if from == to {
        return None;
    }
    let mut i = from;
    let mut acc: u32 = 0;
    while i < to
        invariant
            from <= i <= to <= s@.len(),
            all_digits(s@, from as int, i as int),
            acc == dec_val(s@, from as int, i as int),
            acc <= 65535,
        decreases to - i,
    {
        let c = s.get_char(i);
        if c < '0' || c > '9' {
            assert(!is_digit(s@[i as int]));
            return None;
        }
        let d: u32 = c as u32 - 48;
        acc = acc * 10 + d;
        i = i + 1;
        if acc > 65535 {
            proof {
                if all_digits(s@, from as int, to as int) {
                    lemma_dec_val_monotone(s@, from as int, i as int, to as int);
                }
            }
            return None;
        }
    }
    proof {
        lemma_dec_val_nonneg(s@, from as int, to as int);
    }
    Some(acc as u16)
}

/// Executable counterpart of [`find_index`] on the characters of a slice.
pub fn scan_char(s: &str, from: usize, to: usize, c: char) -> (r: Option<usize>)
    requires
        from <= to <= s@.len(),
    ensures
        find_index(s@, from as int, to as int, c) == match r {
            Some(i) => Some(i as int),
            None => None::<int>,
        },
        r matches Some(i) ==> from <= i < to,
{
    let mut i = from;
    while i < to
        invariant
            from <= i <= to <= s@.len(),
            forall|j: int| from <= j < i ==> s@[j] != c,
        decreases to - i,
    {
        if s.get_char(i) == c {
            proof {
                crate::scan::lemma_find_index_skip(s@, from as int, i as int, to as int, c);
            }
            return Some(i);
        }
        i = i + 1;
    }
    proof {
        crate::scan::lemma_find_index_skip(s@, from as int, to as int, to as int, c);
    }
    None
}

/// Executable counterpart of [`rfind_index`] on the characters of a slice.
pub fn rscan_char(s: &str, from: usize, to: usize, c: char) -> (r: Option<usize>)
    requires
        from <= to <= s@.len(),
    ensures
        rfind_index(s@, from as int, to as int, c) == match r {
            Some(i) => Some(i as int),
            None => None::<int>,
        },
        r matches Some(i) ==> from <= i < to,
{
    let mut i = to;
    while i > from
        invariant
            from <= i <= to <= s@.len(),
            rfind_index(s@, from as int, to as int, c) == rfind_index(
                s@,
                from as int,
                i as int,
                c,
            ),
        decreases i,
    {
        if s.get_char(i - 1) == c {
            return Some(i - 1);
        }
        i = i - 1;
    }
    None
}

/// A sequence of bytes below 128 is valid UTF-8 and decodes to the
/// characters with the same code points.
pub proof fn lemma_ascii_valid_utf8(s: Seq<u8>)
    requires
        forall|i: int| 0 <= i < s.len() ==> #[trigger] s[i] < 128,
    ensures
        valid_utf8(s),
        decode_utf8(s) == s.map(|i: int, b: u8| b as char),
{
    let cs = s.map(|i: int, b: u8| b as char);
    assert(is_ascii_chars(cs));
    is_ascii_chars_encode_utf8(cs);
    assert(encode_utf8(cs) =~= s);
    encode_utf8_valid_utf8(cs);
    encode_utf8_decode_utf8(cs);
}

/// Relies on `std::str::from_utf8`: it succeeds exactly on valid UTF-8
/// input and returns a slice backed by the given bytes.
#[verifier::external_body]
fn utf8_to_str(v: &Vec<u8>) -> (r: Option<&str>)
    ensures
        r is Some <==> valid_utf8(v@),
        r matches Some(s) ==> s.spec_bytes() == v@,
{
    std::str::from_utf8(v.as_slice()).ok()
}

/// The string spelled by the bytes `v`, when they are valid UTF-8.
pub fn utf8_string(v: &Vec<u8>) -> (r: Option<String>)
    ensures
        r is Some <==> valid_utf8(v@),
        r matches Some(s) ==> s@ == decode_utf8(v@),
{
    match utf8_to_str(v) {
        Some(s) => {
            proof {
                encode_utf8_decode_utf8(s@);
            }
            Some(s.to_owned())
        },
        None => None,
    }
}

} // verus!
