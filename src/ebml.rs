//! EBML, the framing of Matroska (MKV, WEBM, MKA): variable-length integers
//! and element headers.
use vstd::prelude::*;

verus! {

/// The length of a variable-length integer announced by its first byte: one
/// more than the number of leading zero bits; 0 for a zero byte.
pub open spec fn spec_vint_len(b: u8) -> u64 {
    if b >= 0x80 {
        1
    } else if b >= 0x40 {
        2
    } else if b >= 0x20 {
        3
    } else if b >= 0x10 {
        4
    } else if b >= 0x08 {
        5
    } else if b >= 0x04 {
        6
    } else if b >= 0x02 {
        7
    } else if b >= 0x01 {
        8
    } else {
        0
    }
}

pub fn vint_len(b: u8) -> (r: u64)
    ensures
        r == spec_vint_len(b),
{
    if b >= 0x80 {
        1
    } else if b >= 0x40 {
        2
    } else if b >= 0x20 {
        3
    } else if b >= 0x10 {
        4
    } else if b >= 0x08 {
        5
    } else if b >= 0x04 {
        6
    } else if b >= 0x02 {
        7
    } else if b >= 0x01 {
        8
    } else {
        0
    }
}

/// `acc` followed by the `k` bytes from `i`, big-endian.
pub open spec fn spec_append_bytes(d: Seq<u8>, i: int, k: int, acc: u64) -> u64
    decreases k,
{
    if k <= 0 {
        acc
    } else {
        spec_append_bytes(d, i + 1, k - 1, (acc << 8u64) | (d[i] as u64))
    }
}

/// What reading a variable-length integer gives.
#[derive(Clone, Copy, Debug, PartialEq, Eq, Structural)]
pub enum VintStep {
    /// This many more bytes are needed.
    Incomplete(u64),
    /// The first byte is zero.
    Invalid,
    /// The integer took `len` bytes. `raw` keeps the length marker bit (as
    /// element IDs are written), `value` drops it.
    Vint { len: u64, raw: u64, value: u64 },
}

/// The variable-length integer that starts at `i` in `d`.
pub open spec fn spec_vint(d: Seq<u8>, i: int) -> VintStep {
    if i >= d.len() {
        VintStep::Incomplete(1)
    } else {
        let l = spec_vint_len(d[i]);
        if l == 0 {
            VintStep::Invalid
        } else if i + l > d.len() {
            VintStep::Incomplete((i + l - d.len()) as u64)
        } else {
            let mask = 0xffu64 >> l;
            VintStep::Vint {
                len: l,
                raw: spec_append_bytes(d, i + 1, l - 1, d[i] as u64),
                value: spec_append_bytes(d, i + 1, l - 1, (d[i] as u64) & mask),
            }
        }
    }
}

fn append_bytes(d: &[u8], i: usize, k: usize, acc: u64) -> (r: u64)
    requires
        i + k <= d@.len(),
    ensures
        r == spec_append_bytes(d@, i as int, k as int, acc),
{
    let _n = d.len();
    let mut r = acc;
    let mut j: usize = 0;
    while j < k
        invariant
            j <= k,
            i + k <= d@.len() <= usize::MAX,
            spec_append_bytes(d@, i as int, k as int, acc) == spec_append_bytes(
                d@,
                i + j,
                k - j,
                r,
            ),
        decreases k - j,
    {
        r = (r << 8u64) | (d[i + j] as u64);
        j = j + 1;
    }
    r
}

/// Reads the variable-length integer that starts at `i`.
pub fn parse_vint(d: &[u8], i: usize) -> (r: VintStep)
    ensures
        r == spec_vint(d@, i as int),
{
    let n = d.len();
    if i >= n {
        return VintStep::Incomplete(1);
    }
    let l = vint_len(d[i]);
    if l == 0 {
        return VintStep::Invalid;
    }
    if l > (n - i) as u64 {
        return VintStep::Incomplete(l - (n - i) as u64);
    }
    let mask = 0xffu64 >> l;
    let k = (l - 1) as usize;
    VintStep::Vint {
        len: l,
        raw: append_bytes(d, i + 1, k, d[i] as u64),
        value: append_bytes(d, i + 1, k, (d[i] as u64) & mask),
    }
}

/// An element header: the ID (with its marker bits, at most 4 bytes), the
/// size of the body, and the bytes the header takes. A size whose data bits
/// are all set means the size is unknown: the element runs until an element
/// at the same or a shallower level begins.
#[derive(Clone, Copy, Debug, PartialEq, Eq, Structural)]
pub struct ElementHeader {
    pub id: u32,
    pub body_size: u64,
    pub header_size: u64,
    pub unknown_size: bool,
}

#[derive(Clone, Copy, Debug, PartialEq, Eq, Structural)]
pub enum ElementStep {
    Incomplete(u64),
    Malformed,
    Header(ElementHeader),
}

/// The size value whose data bits are all set, for an integer of `len`
/// bytes.
pub open spec fn spec_unknown_size(len: u64) -> u64 {
    u64::MAX >> ((64 - 7 * len) as u64)
}

/// The element header that starts at `i`.
pub open spec fn spec_element(d: Seq<u8>, i: int) -> ElementStep {
    match spec_vint(d, i) {
        VintStep::Incomplete(n) => ElementStep::Incomplete(n),
        VintStep::Invalid => ElementStep::Malformed,
        VintStep::Vint { len: id_len, raw: id, value: _ } => if id_len > 4 {
            ElementStep::Malformed
        } else {
            match spec_vint(d, i + id_len) {
                VintStep::Incomplete(n) => ElementStep::Incomplete(n),
                VintStep::Invalid => ElementStep::Malformed,
                VintStep::Vint { len: size_len, raw: _, value: size } => ElementStep::Header(
                    ElementHeader {
                        id: id as u32,
                        body_size: size,
                        header_size: (id_len + size_len) as u64,
                        unknown_size: size == spec_unknown_size(size_len),
                    },
                ),
            }
        },
    }
}

/// Reads the element header that starts at `i`.
pub fn parse_element(d: &[u8], i: usize) -> (r: ElementStep)
    ensures
        r == spec_element(d@, i as int),
{
    let _n = d.len();
    match parse_vint(d, i) {
        VintStep::Incomplete(n) => ElementStep::Incomplete(n),
        VintStep::Invalid => ElementStep::Malformed,
        VintStep::Vint { len: id_len, raw: id, value: _ } => {
            if id_len > 4 {
                return ElementStep::Malformed;
            }
            match parse_vint(d, i + id_len as usize) {
                VintStep::Incomplete(n) => ElementStep::Incomplete(n),
                VintStep::Invalid => ElementStep::Malformed,
                VintStep::Vint { len: size_len, raw: _, value: size } => {
                    assert(1 <= size_len <= 8);
                    let unknown = u64::MAX >> (64 - 7 * size_len);
                    ElementStep::Header(
                        ElementHeader {
                            id: id as u32,
                            body_size: size,
                            header_size: id_len + size_len,
                            unknown_size: size == unknown,
                        },
                    )
                },
            }
        },
    }
}

} // verus!

verus! {

/// Where an element lies: it starts at `start`, its body spans
/// `body_start..end`.
#[derive(Clone, Copy, Debug, PartialEq, Eq, Structural)]
pub struct ElementSpan {
    pub id: u32,
    pub start: usize,
    pub body_start: usize,
    pub end: usize,
}

#[derive(Clone, Copy, Debug, PartialEq, Eq, Structural)]
pub enum ElementLookup {
    Found(ElementSpan),
    Absent,
    /// A header does not parse, or an element runs past the window.
    Malformed,
}

/// The first element with ID `id` among the sibling elements from `i` to
/// `hi`. An element of unknown size runs to the end of the window.
pub open spec fn spec_first_element(d: Seq<u8>, id: u32, i: int, hi: int) -> ElementLookup
    decreases hi - i,
{
    if !(0 <= i < hi <= d.len()) {
        ElementLookup::Absent
    } else {
        match spec_element(d.subrange(0, hi), i) {
            ElementStep::Header(h) => {
                let body = i + h.header_size;
                let end = if h.unknown_size {
                    hi
                } else {
                    body + h.body_size
                };
                if end > hi {
                    ElementLookup::Malformed
                } else if h.id == id {
                    ElementLookup::Found(
                        ElementSpan {
                            id,
                            start: i as usize,
                            body_start: body as usize,
                            end: end as usize,
                        },
                    )
                } else if end <= i {
                    ElementLookup::Malformed
                } else {
                    spec_first_element(d, id, end, hi)
                }
            },
            _ => ElementLookup::Malformed,
        }
    }
}

/// Finds the first element with ID `id` among the siblings from `lo` to
/// `hi`, stepping over the others by their declared sizes.
pub fn first_element(d: &[u8], id: u32, lo: usize, hi: usize) -> (r: ElementLookup)
    requires
        lo <= hi <= d@.len(),
    ensures
        r == spec_first_element(d@, id, lo as int, hi as int),
        r matches ElementLookup::Found(s) ==> lo <= s.start < s.body_start <= s.end <= hi,
{
    let _n = d.len();
    let w = &d[0..hi];
    let mut i = lo;
    while i < hi
        invariant
            lo <= i <= hi <= d@.len() <= usize::MAX,
            w@ == d@.subrange(0, hi as int),
            spec_first_element(d@, id, lo as int, hi as int) == spec_first_element(
                d@,
                id,
                i as int,
                hi as int,
            ),
        decreases hi - i,
    {
        match parse_element(w, i) {
            ElementStep::Header(h) => {
                if h.header_size > (hi - i) as u64 {
                    return ElementLookup::Malformed;
                }
                let body = i + h.header_size as usize;
                let end: usize = if h.unknown_size {
                    hi
                } else if h.body_size > (hi - body) as u64 {
                    return ElementLookup::Malformed;
                } else {
                    body + h.body_size as usize
                };
                if h.id == id {
                    return ElementLookup::Found(
                        ElementSpan { id, start: i, body_start: body, end },
                    );
                }
                if end <= i {
                    return ElementLookup::Malformed;
                }
                i = end;
            },
            _ => {
                return ElementLookup::Malformed;
            },
        }
    }
    ElementLookup::Absent
}

} // verus!
