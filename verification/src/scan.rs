//! Byte-buffer scanning primitives shared by the framed decoders: first
//! occurrence of a byte, of a line break, of the header terminator, and
//! big-endian integer reads, each as a spec function with a matching
//! executable scanner.
use vstd::prelude::*;

verus! {

pub const CR: u8 = 13;

pub const LF: u8 = 10;

pub const SP: u8 = 32;

pub const HTAB: u8 = 9;

pub const COLON: u8 = 58;

/// First position in `[from, to)` at which `s` holds `x`; `None` when the
/// window is empty, out of range, or free of `x`.
pub open spec fn find_index<T>(s: Seq<T>, from: int, to: int, x: T) -> Option<int>
    decreases to - from,
{
    if from < 0 || from >= to || to > s.len() {
        None
    } else if s[from] == x {
        Some(from)
    } else {
        find_index(s, from + 1, to, x)
    }
}

/// Skipping a prefix free of `x` does not change where `x` is first found.
pub proof fn lemma_find_index_skip<T>(s: Seq<T>, from: int, mid: int, to: int, x: T)
    requires
        0 <= from <= mid <= to <= s.len(),
        forall|j: int| from <= j < mid ==> s[j] != x,
    ensures
        find_index(s, from, to, x) == find_index(s, mid, to, x),
    decreases mid - from,
{
    if from < mid && from < to {
        lemma_find_index_skip(s, from + 1, mid, to, x);
    }
}

/// Last position in `[from, to)` at which `s` holds `x`.
pub open spec fn rfind_index<T>(s: Seq<T>, from: int, to: int, x: T) -> Option<int>
    decreases to - from,
{
    if from < 0 || from >= to || to > s.len() {
        None
    } else if s[to - 1] == x {
        Some(to - 1)
    } else {
        rfind_index(s, from, to - 1, x)
    }
}

/// True when CR LF stands at `i`.
pub open spec fn is_crlf_at(s: Seq<u8>, i: int) -> bool {
    &&& 0 <= i
    &&& i + 2 <= s.len()
    &&& s[i] == CR
    &&& s[i + 1] == LF
}

/// First position `i` in `[from, to - 1)` at which `s` holds CR LF.
pub open spec fn find_crlf(s: Seq<u8>, from: int, to: int) -> Option<int>
    decreases to - from,
{
    if from < 0 || from + 2 > to || to > s.len() {
        None
    } else if s[from] == CR && s[from + 1] == LF {
        Some(from)
    } else {
        find_crlf(s, from + 1, to)
    }
}

pub proof fn lemma_find_crlf_some(s: Seq<u8>, from: int, to: int)
    requires
        find_crlf(s, from, to) is Some,
    ensures
        from <= find_crlf(s, from, to).unwrap(),
        find_crlf(s, from, to).unwrap() + 2 <= to <= s.len(),
        s[find_crlf(s, from, to).unwrap()] == CR,
        s[find_crlf(s, from, to).unwrap() + 1] == LF,
        forall|j: int| from <= j < find_crlf(s, from, to).unwrap() ==> !is_crlf_at(s, j),
    decreases to - from,
{
    if from < 0 || from + 2 > to || to > s.len() {
    } else if s[from] == CR && s[from + 1] == LF {
    } else {
        lemma_find_crlf_some(s, from + 1, to);
    }
}

pub proof fn lemma_find_crlf_none(s: Seq<u8>, from: int, to: int)
    requires
        find_crlf(s, from, to) is None,
        0 <= from,
        to <= s.len(),
    ensures
        forall|j: int| from <= j && j + 2 <= to ==> !is_crlf_at(s, j),
    decreases to - from,
{
    if from + 2 <= to {
        lemma_find_crlf_none(s, from + 1, to);
    }
}

pub proof fn lemma_find_crlf_skip(s: Seq<u8>, from: int, mid: int, to: int)
    requires
        0 <= from <= mid <= to <= s.len(),
        forall|j: int| from <= j < mid ==> !is_crlf_at(s, j),
    ensures
        find_crlf(s, from, to) == find_crlf(s, mid, to),
    decreases mid - from,
{
    if from < mid && from + 2 <= to {
        assert(!is_crlf_at(s, from));
        lemma_find_crlf_skip(s, from + 1, mid, to);
    }
}

/// True when the four-byte header terminator CR LF CR LF stands at `i`.
pub open spec fn is_head_end_at(s: Seq<u8>, i: int) -> bool {
    &&& 0 <= i
    &&& i + 4 <= s.len()
    &&& s[i] == CR
    &&& s[i + 1] == LF
    &&& s[i + 2] == CR
    &&& s[i + 3] == LF
}

/// First position of the header terminator CR LF CR LF in `[from, to - 3)`.
pub open spec fn find_head_end(s: Seq<u8>, from: int, to: int) -> Option<int>
    decreases to - from,
{
    if from < 0 || from + 4 > to || to > s.len() {
        None
    } else if s[from] == CR && s[from + 1] == LF && s[from + 2] == CR && s[from + 3] == LF {
        Some(from)
    } else {
        find_head_end(s, from + 1, to)
    }
}

pub proof fn lemma_find_head_end_none(s: Seq<u8>, from: int, to: int)
    requires
        find_head_end(s, from, to) is None,
        0 <= from,
        to <= s.len(),
    ensures
        forall|j: int| from <= j && j + 4 <= to ==> !is_head_end_at(s, j),
    decreases to - from,
{
    if from + 4 <= to {
        lemma_find_head_end_none(s, from + 1, to);
    }
}

pub proof fn lemma_find_head_end_skip(s: Seq<u8>, from: int, mid: int, to: int)
    requires
        0 <= from <= mid <= to <= s.len(),
        forall|j: int| from <= j < mid ==> !is_head_end_at(s, j),
    ensures
        find_head_end(s, from, to) == find_head_end(s, mid, to),
    decreases mid - from,
{
    if from < mid && from + 4 <= to {
        assert(!is_head_end_at(s, from));
        lemma_find_head_end_skip(s, from + 1, mid, to);
    }
}

/// Executable counterpart of [`find_index`] on a byte buffer.
pub fn scan_byte(v: &Vec<u8>, from: usize, to: usize, x: u8) -> (r: Option<usize>)
    requires
        from <= to <= v@.len(),
    ensures
        find_index(v@, from as int, to as int, x) == match r {
            Some(i) => Some(i as int),
            None => None::<int>,
        },
        r matches Some(i) ==> from <= i < to,
{
    let mut i = from;
    while i < to
        invariant
            from <= i <= to <= v@.len(),
            forall|j: int| from <= j < i ==> v@[j] != x,
        decreases to - i,
    {
        if v[i] == x {
            proof {
                lemma_find_index_skip(v@, from as int, i as int, to as int, x);
            }
            return Some(i);
        }
        i = i + 1;
    }
    proof {
        lemma_find_index_skip(v@, from as int, to as int, to as int, x);
    }
    None
}

/// Executable counterpart of [`find_crlf`].
pub fn scan_crlf(v: &Vec<u8>, from: usize, to: usize) -> (r: Option<usize>)
    requires
        from <= to <= v@.len(),
    ensures
        find_crlf(v@, from as int, to as int) == match r {
            Some(i) => Some(i as int),
            None => None::<int>,
        },
        r matches Some(i) ==> from <= i && i + 2 <= to,
{
    if to < 2 {
        return None;
    }
    let mut i = from;
    while i <= to - 2
        invariant
            2 <= to,
            from <= i <= to <= v@.len(),
            forall|j: int| from <= j < i ==> !is_crlf_at(v@, j),
        decreases to - i,
    {
        if v[i] == CR && v[i + 1] == LF {
            proof {
                lemma_find_crlf_skip(v@, from as int, i as int, to as int);
            }
            return Some(i);
        }
        i = i + 1;
    }
    proof {
        lemma_find_crlf_skip(v@, from as int, i as int, to as int);
        lemma_find_crlf_none(v@, i as int, to as int);
    }
    None
}

/// Executable counterpart of [`find_head_end`].
pub fn scan_head_end(v: &Vec<u8>, from: usize, to: usize) -> (r: Option<usize>)
    requires
        from <= to <= v@.len(),
    ensures
        find_head_end(v@, from as int, to as int) == match r {
            Some(i) => Some(i as int),
            None => None::<int>,
        },
        r matches Some(i) ==> from <= i && i + 4 <= to,
{
    if to < 4 {
        return None;
    }
    let mut i = from;
    while i <= to - 4
        invariant
            4 <= to,
            from <= i <= to <= v@.len(),
            forall|j: int| from <= j < i ==> !is_head_end_at(v@, j),
        decreases to - i,
    {
        if v[i] == CR && v[i + 1] == LF && v[i + 2] == CR && v[i + 3] == LF {
            proof {
                lemma_find_head_end_skip(v@, from as int, i as int, to as int);
            }
            return Some(i);
        }
        i = i + 1;
    }
    proof {
        lemma_find_head_end_skip(v@, from as int, i as int, to as int);
        lemma_find_head_end_none(v@, i as int, to as int);
    }
    None
}

/// The 16-bit big-endian integer held at `s[i]` and `s[i + 1]`.
pub open spec fn be16(s: Seq<u8>, i: int) -> int {
    s[i] * 256 + s[i + 1]
}

/// The 24-bit big-endian integer held at `s[i]`, `s[i + 1]` and `s[i + 2]`.
pub open spec fn be24(s: Seq<u8>, i: int) -> int {
    s[i] * 65536 + s[i + 1] * 256 + s[i + 2]
}

pub fn read_be16(v: &Vec<u8>, i: usize) -> (r: u16)
    requires
        i + 2 <= v@.len(),
    ensures
        r == be16(v@, i as int),
{
    let _n = v.len();
    (v[i] as u16) * 256 + (v[i + 1] as u16)
}

pub fn read_be24(v: &Vec<u8>, i: usize) -> (r: u32)
    requires
        i + 3 <= v@.len(),
    ensures
        r == be24(v@, i as int),
{
    let _n = v.len();
    (v[i] as u32) * 65536 + (v[i + 1] as u32) * 256 + (v[i + 2] as u32)
}

pub open spec fn is_ws(b: u8) -> bool {
    b == SP || b == HTAB
}

/// First position in `[from, to)` that does not hold a space or tab.
pub open spec fn skip_ws(s: Seq<u8>, from: int, to: int) -> int
    decreases to - from,
{
    if from < 0 || from >= to || to > s.len() {
        from
    } else if is_ws(s[from]) {
        skip_ws(s, from + 1, to)
    } else {
        from
    }
}

/// Position after the last byte in `[from, to)` that is not a space or tab.
pub open spec fn rskip_ws(s: Seq<u8>, from: int, to: int) -> int
    decreases to - from,
{
    if from < 0 || from >= to || to > s.len() {
        to
    } else if is_ws(s[to - 1]) {
        rskip_ws(s, from, to - 1)
    } else {
        to
    }
}

/// Executable counterpart of [`skip_ws`].
pub fn scan_skip_ws(v: &Vec<u8>, from: usize, to: usize) -> (r: usize)
    requires
        from <= to <= v@.len(),
    ensures
        r == skip_ws(v@, from as int, to as int),
        from <= r <= to,
{
    let mut i = from;
    while i < to
        invariant
            from <= i <= to <= v@.len(),
            skip_ws(v@, from as int, to as int) == skip_ws(v@, i as int, to as int),
        decreases to - i,
    {
        if v[i] != SP && v[i] != HTAB {
            return i;
        }
        i = i + 1;
    }
    i
}

/// Executable counterpart of [`rskip_ws`].
pub fn scan_rskip_ws(v: &Vec<u8>, from: usize, to: usize) -> (r: usize)
    requires
        from <= to <= v@.len(),
    ensures
        r == rskip_ws(v@, from as int, to as int),
        from <= r <= to,
{
    let mut i = to;
    while i > from
        invariant
            from <= i <= to <= v@.len(),
            rskip_ws(v@, from as int, to as int) == rskip_ws(v@, from as int, i as int),
        decreases i,
    {
        if v[i - 1] != SP && v[i - 1] != HTAB {
            return i;
        }
        i = i - 1;
    }
    i
}

/// A fresh copy of the bytes `v[from..to]`.
pub fn copy_range(v: &Vec<u8>, from: usize, to: usize) -> (r: Vec<u8>)
    requires
        from <= to <= v@.len(),
    ensures
        r@ == v@.subrange(from as int, to as int),
{
    let mut out: Vec<u8> = Vec::new();
    let mut i = from;
    while i < to
        invariant
            from <= i <= to <= v@.len(),
            out@ == v@.subrange(from as int, i as int),
        decreases to - i,
    {
        out.push(v[i]);
        proof {
            assert(v@.subrange(from as int, i + 1 as int) =~= v@.subrange(from as int, i as int)
                .push(v@[i as int]));
        }
        i = i + 1;
    }
    out
}

} // verus!
