//! Box headers and box lookup in an ISO base media byte sequence.
use vstd::prelude::*;

verus! {

/// Big-endian `u32` at `i`.
pub open spec fn spec_be_u32(d: Seq<u8>, i: int) -> u32 {
    ((d[i] as u32) << 24u32) | ((d[i + 1] as u32) << 16u32) | ((d[i + 2] as u32) << 8u32) | (
    d[i + 3] as u32)
}

/// Big-endian `u16` at `i`.
pub open spec fn spec_be_u16(d: Seq<u8>, i: int) -> u16 {
    ((d[i] as u16) << 8u16) | (d[i + 1] as u16)
}

pub fn read_be_u16(d: &[u8], i: usize) -> (r: u16)
    requires
        i + 2 <= d@.len(),
    ensures
        r == spec_be_u16(d@, i as int),
{
    ((d[i] as u16) << 8u16) | (d[i + 1] as u16)
}

/// Big-endian `u64` at `i`.
pub open spec fn spec_be_u64(d: Seq<u8>, i: int) -> u64 {
    ((spec_be_u32(d, i) as u64) << 32u64) | (spec_be_u32(d, i + 4) as u64)
}

pub fn read_be_u32(d: &[u8], i: usize) -> (r: u32)
    requires
        i + 4 <= d@.len(),
    ensures
        r == spec_be_u32(d@, i as int),
{
    ((d[i] as u32) << 24u32) | ((d[i + 1] as u32) << 16u32) | ((d[i + 2] as u32) << 8u32) | (d[i
        + 3] as u32)
}

pub fn read_be_u64(d: &[u8], i: usize) -> (r: u64)
    requires
        i + 8 <= d@.len(),
    ensures
        r == spec_be_u64(d@, i as int),
{
    let _n = d.len();
    ((read_be_u32(d, i) as u64) << 32u64) | (read_be_u32(d, i + 4) as u64)
}

/// A box header: the 4-byte type, the total size, and the bytes the header
/// itself takes (8, or 16 with a 64-bit size).
#[derive(Clone, Copy, Debug, PartialEq, Eq, Structural)]
pub struct BoxHeader {
    pub box_type: u32,
    pub box_size: u64,
    pub header_size: u64,
    /// The size field was 0: the box runs to the end of what encloses it.
    pub to_end: bool,
}

impl BoxHeader {
    pub open spec fn spec_body_size(&self) -> int {
        self.box_size - self.header_size
    }

    pub fn body_size(&self) -> (r: u64)
        requires
            self.header_size <= self.box_size,
        ensures
            r == self.spec_body_size(),
    {
        self.box_size - self.header_size
    }
}

/// What reading a header out of a byte window gives.
#[derive(Clone, Copy, Debug, PartialEq, Eq, Structural)]
pub enum HeaderStep {
    /// The window ends inside the header; this many more bytes are needed.
    Incomplete(usize),
    /// The size field is smaller than the header.
    Malformed,
    Header(BoxHeader),
}

/// The header at the start of `d`. A size of 0 stands for the whole window.
pub open spec fn spec_header(d: Seq<u8>) -> HeaderStep {
    if d.len() < 8 {
        HeaderStep::Incomplete((8 - d.len()) as usize)
    } else {
        let size = spec_be_u32(d, 0);
        let ty = spec_be_u32(d, 4);
        if size == 1 {
            if d.len() < 16 {
                HeaderStep::Incomplete((16 - d.len()) as usize)
            } else if spec_be_u64(d, 8) < 16 {
                HeaderStep::Malformed
            } else {
                HeaderStep::Header(
                    BoxHeader { box_type: ty, box_size: spec_be_u64(d, 8), header_size: 16, to_end: false },
                )
            }
        } else if size == 0 {
            HeaderStep::Header(
                BoxHeader { box_type: ty, box_size: d.len() as u64, header_size: 8, to_end: true },
            )
        } else if size < 8 {
            HeaderStep::Malformed
        } else {
            HeaderStep::Header(
                BoxHeader { box_type: ty, box_size: size as u64, header_size: 8, to_end: false },
            )
        }
    }
}

/// Every header that parses has a header no larger than the box.
pub proof fn lemma_header_fits(d: Seq<u8>)
    requires
        d.len() <= u64::MAX,
    ensures
        spec_header(d) matches HeaderStep::Header(h) ==> 8 <= h.header_size <= h.box_size
            && h.header_size <= d.len() && (h.to_end ==> h.box_size == d.len()),
        spec_header(d) matches HeaderStep::Incomplete(n) ==> 0 < n && d.len() + n <= 16,
{
}

/// Reads the header that starts at offset `i` of the window `d[..hi]`.
pub fn parse_header(d: &[u8], i: usize, hi: usize) -> (r: HeaderStep)
    requires
        i <= hi <= d@.len(),
    ensures
        r == spec_header(d@.subrange(i as int, hi as int)),
{
    let ghost w = d@.subrange(i as int, hi as int);
    let avail = hi - i;
    if avail < 8 {
        return HeaderStep::Incomplete(8 - avail);
    }
    let size = read_be_u32(d, i);
    let ty = read_be_u32(d, i + 4);
    assert(size == spec_be_u32(w, 0));
    assert(ty == spec_be_u32(w, 4));
    if size == 1 {
        if avail < 16 {
            HeaderStep::Incomplete(16 - avail)
        } else {
            let big = read_be_u64(d, i + 8);
            assert(big == spec_be_u64(w, 8));
            if big < 16 {
                HeaderStep::Malformed
            } else {
                HeaderStep::Header(BoxHeader { box_type: ty, box_size: big, header_size: 16, to_end: false })
            }
        }
    } else if size == 0 {
        HeaderStep::Header(
            BoxHeader { box_type: ty, box_size: avail as u64, header_size: 8, to_end: true },
        )
    } else if size < 8 {
        HeaderStep::Malformed
    } else {
        HeaderStep::Header(BoxHeader { box_type: ty, box_size: size as u64, header_size: 8, to_end: false })
    }
}

/// Where a box lies in a byte sequence: it spans `start..end`, and its
/// body spans `start + header_size..end`.
#[derive(Clone, Copy, Debug, PartialEq, Eq, Structural)]
pub struct BoxSpan {
    pub box_type: u32,
    pub box_size: u64,
    pub start: usize,
    pub header_size: usize,
    pub end: usize,
}

impl BoxSpan {
    pub open spec fn body_start(&self) -> int {
        self.start + self.header_size
    }

    /// A span is consistent with its header: header and body add up to the
    /// declared size.
    pub open spec fn is_consistent(&self) -> bool {
        &&& self.start + self.header_size <= self.end
        &&& self.end - self.start == self.box_size
        &&& 8 <= self.header_size
    }
}

/// The outcome of a lookup among the boxes of a complete byte window.
#[derive(Clone, Copy, Debug, PartialEq, Eq, Structural)]
pub enum Lookup {
    Found(BoxSpan),
    Absent,
    /// A header does not parse, or a box runs past the end of the window.
    Malformed,
}

/// The first box of type `ty` among the boxes that follow one another from
/// `i` to `hi` in `d`. Boxes of other types are stepped over, never entered.
pub open spec fn spec_first_box(d: Seq<u8>, ty: u32, i: int, hi: int) -> Lookup
    decreases hi - i via first_box_decreases
{
    if !(0 <= i < hi <= d.len() && hi <= usize::MAX) {
        Lookup::Absent
    } else {
        match spec_header(d.subrange(i, hi)) {
            HeaderStep::Header(h) => {
                if h.box_size > hi - i {
                    Lookup::Malformed
                } else if h.box_type == ty {
                    Lookup::Found(
                        BoxSpan {
                            box_type: ty,
                            box_size: h.box_size,
                            start: i as usize,
                            header_size: h.header_size as usize,
                            end: (i + h.box_size) as usize,
                        },
                    )
                } else {
                    spec_first_box(d, ty, i + h.box_size, hi)
                }
            },
            _ => Lookup::Malformed,
        }
    }
}

#[via_fn]
proof fn first_box_decreases(d: Seq<u8>, ty: u32, i: int, hi: int) {
    if 0 <= i < hi <= d.len() && hi <= usize::MAX {
        lemma_header_fits_window(d.subrange(i, hi));
    }
}

proof fn lemma_header_fits_window(w: Seq<u8>)
    requires
        w.len() <= u64::MAX,
    ensures
        spec_header(w) matches HeaderStep::Header(h) ==> 8 <= h.header_size <= h.box_size,
{
}

/// The box reached by following `path` from the boxes between `lo` and `hi`:
/// the first box of type `path[0]`, then within its body the first box of
/// type `path[1]`, and so on. Only the boxes named on the path are entered.
pub open spec fn spec_find_path(d: Seq<u8>, path: Seq<u32>, lo: int, hi: int) -> Lookup
    decreases path.len(),
{
    if path.len() == 0 {
        Lookup::Absent
    } else {
        match spec_first_box(d, path[0], lo, hi) {
            Lookup::Found(s) => {
                if path.len() == 1 {
                    Lookup::Found(s)
                } else {
                    spec_find_path(d, path.drop_first(), s.body_start(), s.end as int)
                }
            },
            r => r,
        }
    }
}

/// A box found among the boxes from `i` to `hi` lies inside that window, has
/// the type asked for, and its header and body sizes add up to its declared
/// size.
pub proof fn lemma_first_box_span(d: Seq<u8>, ty: u32, i: int, hi: int)
    requires
        d.len() <= usize::MAX,
    ensures
        spec_first_box(d, ty, i, hi) matches Lookup::Found(s) ==> s.is_consistent() && i <= s.start
            && s.end <= hi && s.box_type == ty,
    decreases hi - i,
{
    if 0 <= i < hi <= d.len() {
        lemma_header_fits(d.subrange(i, hi));
        if let HeaderStep::Header(h) = spec_header(d.subrange(i, hi)) {
            if h.box_size <= hi - i && h.box_type != ty {
                lemma_first_box_span(d, ty, i + h.box_size, hi);
            }
        }
    }
}

/// A box found by path lies inside the window, has the last type of the
/// path, and its header and body sizes add up to its declared size.
pub proof fn lemma_find_path_span(d: Seq<u8>, path: Seq<u32>, lo: int, hi: int)
    requires
        d.len() <= usize::MAX,
    ensures
        spec_find_path(d, path, lo, hi) matches Lookup::Found(s) ==> s.is_consistent() && lo
            <= s.start && s.end <= hi && s.box_type == path.last(),
    decreases path.len(),
{
    if path.len() > 0 {
        lemma_first_box_span(d, path[0], lo, hi);
        if let Lookup::Found(s) = spec_first_box(d, path[0], lo, hi) {
            if path.len() > 1 {
                lemma_find_path_span(d, path.drop_first(), s.body_start(), s.end as int);
            }
        }
    }
}

/// Finds the first box of type `ty` between `lo` and `hi`.
pub fn first_box(d: &[u8], ty: u32, lo: usize, hi: usize) -> (r: Lookup)
    requires
        lo <= hi <= d@.len(),
    ensures
        r == spec_first_box(d@, ty, lo as int, hi as int),
{
    let mut i = lo;
    while i < hi
        invariant
            lo <= i <= hi <= d@.len(),
            spec_first_box(d@, ty, lo as int, hi as int) == spec_first_box(
                d@,
                ty,
                i as int,
                hi as int,
            ),
        decreases hi - i,
    {
        proof {
            lemma_header_fits(d@.subrange(i as int, hi as int));
        }
        match parse_header(d, i, hi) {
            HeaderStep::Header(h) => {
                if h.box_size > (hi - i) as u64 {
                    return Lookup::Malformed;
                }
                if h.box_type == ty {
                    return Lookup::Found(
                        BoxSpan {
                            box_type: ty,
                            box_size: h.box_size,
                            start: i,
                            header_size: h.header_size as usize,
                            end: i + h.box_size as usize,
                        },
                    );
                }
                i = i + h.box_size as usize;
            },
            _ => {
                return Lookup::Malformed;
            },
        }
    }
    Lookup::Absent
}

/// Follows `path` from the boxes between `lo` and `hi` (see
/// [`spec_find_path`]).
pub fn find_box_in(d: &[u8], path: &[u32], lo: usize, hi: usize) -> (r: Lookup)
    requires
        lo <= hi <= d@.len(),
    ensures
        r == spec_find_path(d@, path@, lo as int, hi as int),
{
    let _n = d.len();
    if path.len() == 0 {
        return Lookup::Absent;
    }
    assert(path@.subrange(0, path@.len() as int) =~= path@);
    let mut k: usize = 0;
    let mut a = lo;
    let mut b = hi;
    loop
        invariant
            0 <= k < path@.len(),
            a <= b <= d@.len() <= usize::MAX,
            spec_find_path(d@, path@, lo as int, hi as int) == spec_find_path(
                d@,
                path@.subrange(k as int, path@.len() as int),
                a as int,
                b as int,
            ),
        decreases path@.len() - k,
    {
        let ghost rest = path@.subrange(k as int, path@.len() as int);
        assert(rest[0] == path@[k as int]);
        assert(rest.drop_first() =~= path@.subrange(k + 1, path@.len() as int));
        proof {
            lemma_first_box_span(d@, path@[k as int], a as int, b as int);
        }
        match first_box(d, path[k], a, b) {
            Lookup::Found(s) => {
                if k + 1 == path.len() {
                    return Lookup::Found(s);
                }
                a = s.start + s.header_size;
                b = s.end;
                k = k + 1;
            },
            r => {
                return r;
            },
        }
    }
}

/// Follows `path` from the top-level boxes of `d`: the first box of type
/// `path[0]`, then the first of type `path[1]` in its body, and so on.
pub fn find_box(d: &[u8], path: &[u32]) -> (r: Lookup)
    ensures
        r == spec_find_path(d@, path@, 0, d@.len() as int),
        r matches Lookup::Found(s) ==> s.is_consistent() && s.end <= d@.len() && s.box_type
            == path@.last(),
{
    let _n = d.len();
    proof {
        lemma_find_path_span(d@, path@, 0, d@.len() as int);
    }
    find_box_in(d, path, 0, d.len())
}

} // verus!

verus! {

/// `j` starts a box in the run of sibling boxes that begins at `i` and ends
/// at `hi`: every box from `i` up to `j` has a header and lies in the window.
pub open spec fn spec_sibling(d: Seq<u8>, i: int, j: int, hi: int) -> bool
    decreases hi - i via sibling_decreases
{
    if !(0 <= i < hi <= d.len() && hi <= usize::MAX) {
        false
    } else if i == j {
        true
    } else {
        match spec_header(d.subrange(i, hi)) {
            HeaderStep::Header(h) => h.box_size <= hi - i && spec_sibling(d, i + h.box_size, j, hi),
            _ => false,
        }
    }
}

#[via_fn]
proof fn sibling_decreases(d: Seq<u8>, i: int, j: int, hi: int) {
    if 0 <= i < hi <= d.len() && hi <= usize::MAX {
        lemma_header_fits_window(d.subrange(i, hi));
    }
}

/// The type of the box whose header starts at `j`.
pub open spec fn spec_type_at(d: Seq<u8>, j: int, hi: int) -> Option<u32> {
    match spec_header(d.subrange(j, hi)) {
        HeaderStep::Header(h) => Some(h.box_type),
        _ => None,
    }
}

proof fn lemma_sibling_after(d: Seq<u8>, i: int, j: int, hi: int)
    requires
        spec_sibling(d, i, j, hi),
    ensures
        i <= j,
    decreases hi - i,
{
    if i != j {
        lemma_header_fits_window(d.subrange(i, hi));
        if let HeaderStep::Header(h) = spec_header(d.subrange(i, hi)) {
            lemma_sibling_after(d, i + h.box_size, j, hi);
        }
    }
}

/// A lookup returns the first box of the type asked for: the box found is
/// one of the siblings that follow one another from `i`, and no sibling
/// before it has that type. Lookups step over the other boxes without
/// reading their bodies.
pub proof fn lemma_first_box_is_first(d: Seq<u8>, ty: u32, i: int, hi: int, j: int)
    requires
        spec_first_box(d, ty, i, hi) is Found,
    ensures
        spec_sibling(d, i, spec_first_box(d, ty, i, hi)->Found_0.start as int, hi),
        spec_sibling(d, i, j, hi) && j < spec_first_box(d, ty, i, hi)->Found_0.start ==> spec_type_at(
            d,
            j,
            hi,
        ) != Some(ty),
    decreases hi - i,
{
    lemma_header_fits_window(d.subrange(i, hi));
    if let HeaderStep::Header(h) = spec_header(d.subrange(i, hi)) {
        if h.box_type != ty {
            lemma_first_box_is_first(d, ty, i + h.box_size, hi, j);
            if spec_sibling(d, i, j, hi) && j != i {
                assert(spec_sibling(d, i + h.box_size, j, hi));
            }
        } else if spec_sibling(d, i, j, hi) && j != i {
            lemma_sibling_after(d, i + h.box_size, j, hi);
        }
    }
}

} // verus!
