//! The movie header (`mvhd`) and the header of the video track (`tkhd`).
use vstd::prelude::*;

use crate::bbox::{
    find_box_in, first_box, lemma_find_path_span, lemma_first_box_span, lemma_header_fits,
    parse_header, read_be_u32, read_be_u64, spec_be_u32, spec_be_u64, spec_find_path,
    spec_first_box, spec_header, BoxSpan, HeaderStep, Lookup,
};
use crate::values::Timestamp;

verus! {

pub const TRAK: u32 = 0x7472_616b;
pub const TKHD: u32 = 0x746b_6864;
pub const MDIA: u32 = 0x6d64_6961;
pub const HDLR: u32 = 0x6864_6c72;
/// Handler type of a video track.
pub const VIDE: u32 = 0x7669_6465;

/// Seconds from 1904-01-01 (the epoch of `mvhd` times) to 1970-01-01.
pub const EPOCH_1904_TO_1970: u64 = 2_082_844_800;

/// The fields of a movie header that the metadata uses.
#[derive(Clone, Copy, Debug, PartialEq, Eq, Structural)]
pub struct MvhdBox {
    /// Seconds since 1904-01-01 UTC.
    pub creation_time: u64,
    pub timescale: u32,
    /// In units of the timescale.
    pub duration: u64,
}

/// The movie header whose body spans `lo..hi`: version 0 has 32-bit times,
/// version 1 64-bit ones. The creation time must be expressible in Unix
/// seconds as an `i64`.
pub open spec fn spec_mvhd(d: Seq<u8>, lo: int, hi: int) -> Option<MvhdBox> {
    if !(0 <= lo && lo + 4 <= hi <= d.len()) {
        None
    } else if d[lo] == 0 && hi - lo >= 20 {
        Some(
            MvhdBox {
                creation_time: spec_be_u32(d, lo + 4) as u64,
                timescale: spec_be_u32(d, lo + 12),
                duration: spec_be_u32(d, lo + 16) as u64,
            },
        )
    } else if d[lo] == 1 && hi - lo >= 32 && spec_be_u64(d, lo + 4) <= i64::MAX {
        Some(
            MvhdBox {
                creation_time: spec_be_u64(d, lo + 4),
                timescale: spec_be_u32(d, lo + 20),
                duration: spec_be_u64(d, lo + 24),
            },
        )
    } else {
        None
    }
}

impl MvhdBox {
    /// The duration in whole milliseconds, saturated to `u32`. A zero
    /// timescale gives 0 for an empty duration and the maximum otherwise.
    pub open spec fn spec_duration_ms(&self) -> u32 {
        if self.timescale == 0 {
            if self.duration == 0 {
                0
            } else {
                u32::MAX
            }
        } else {
            let q = self.duration as int * 1000 / self.timescale as int;
            if q > u32::MAX {
                u32::MAX
            } else {
                q as u32
            }
        }
    }

    pub fn duration_ms(&self) -> (r: u32)
        ensures
            r == self.spec_duration_ms(),
    {
        if self.timescale == 0 {
            if self.duration == 0 {
                0
            } else {
                u32::MAX
            }
        } else {
            let p = self.duration as u128 * 1000;
            let q = p / self.timescale as u128;
            if q > u32::MAX as u128 {
                u32::MAX
            } else {
                q as u32
            }
        }
    }

    pub open spec fn spec_creation_time(&self) -> Timestamp {
        Timestamp {
            secs: (self.creation_time as int - EPOCH_1904_TO_1970 as int) as i64,
            nanos: 0,
            offset: 0,
        }
    }

    /// The creation time as a UTC timestamp.
    pub fn creation_time(&self) -> (r: Timestamp)
        requires
            self.creation_time <= i64::MAX,
        ensures
            r == self.spec_creation_time(),
            r.secs == self.creation_time - EPOCH_1904_TO_1970,
    {
        let secs = self.creation_time as i64 - EPOCH_1904_TO_1970 as i64;
        Timestamp { secs, nanos: 0, offset: 0 }
    }
}

/// Parses the body of an `mvhd` box.
pub fn parse_mvhd(d: &[u8], lo: usize, hi: usize) -> (r: Option<MvhdBox>)
    requires
        lo <= hi <= d@.len(),
    ensures
        r == spec_mvhd(d@, lo as int, hi as int),
        r matches Some(m) ==> m.creation_time <= i64::MAX,
{
    if hi - lo < 4 {
        return None;
    }
    let version = d[lo];
    if version == 0 && hi - lo >= 20 {
        Some(
            MvhdBox {
                creation_time: read_be_u32(d, lo + 4) as u64,
                timescale: read_be_u32(d, lo + 12),
                duration: read_be_u32(d, lo + 16) as u64,
            },
        )
    } else if version == 1 && hi - lo >= 32 {
        let creation_time = read_be_u64(d, lo + 4);
        if creation_time > i64::MAX as u64 {
            return None;
        }
        Some(
            MvhdBox {
                creation_time,
                timescale: read_be_u32(d, lo + 20),
                duration: read_be_u64(d, lo + 24),
            },
        )
    } else {
        None
    }
}

/// Width and height in pixels from the track header whose body spans
/// `lo..hi` (the integer part of its 16.16 fixed-point fields).
pub open spec fn spec_tkhd(d: Seq<u8>, lo: int, hi: int) -> Option<(u32, u32)> {
    if !(0 <= lo && lo + 4 <= hi <= d.len()) {
        None
    } else if d[lo] == 0 && hi - lo >= 84 {
        Some((spec_be_u32(d, lo + 76) >> 16u32, spec_be_u32(d, lo + 80) >> 16u32))
    } else if d[lo] == 1 && hi - lo >= 96 {
        Some((spec_be_u32(d, lo + 88) >> 16u32, spec_be_u32(d, lo + 92) >> 16u32))
    } else {
        None
    }
}

/// Parses width and height out of the body of a `tkhd` box.
pub fn parse_tkhd(d: &[u8], lo: usize, hi: usize) -> (r: Option<(u32, u32)>)
    requires
        lo <= hi <= d@.len(),
    ensures
        r == spec_tkhd(d@, lo as int, hi as int),
{
    if hi - lo < 4 {
        return None;
    }
    let version = d[lo];
    if version == 0 && hi - lo >= 84 {
        Some((read_be_u32(d, lo + 76) >> 16u32, read_be_u32(d, lo + 80) >> 16u32))
    } else if version == 1 && hi - lo >= 96 {
        Some((read_be_u32(d, lo + 88) >> 16u32, read_be_u32(d, lo + 92) >> 16u32))
    } else {
        None
    }
}

/// A `trak` box is a video track when its `mdia/hdlr` box names the handler
/// `vide` (after 4 bytes of version and flags and 4 predefined bytes).
pub open spec fn spec_is_video_trak(d: Seq<u8>, t: BoxSpan) -> bool {
    match spec_find_path(d, seq![MDIA, HDLR], t.body_start(), t.end as int) {
        Lookup::Found(h) => h.end - h.body_start() >= 12 && spec_be_u32(d, h.body_start() + 8)
            == VIDE,
        _ => false,
    }
}

/// The first video track among the boxes from `i` to `hi`.
pub open spec fn spec_video_trak(d: Seq<u8>, i: int, hi: int) -> Lookup
    decreases hi - i via video_trak_decreases
{
    if !(0 <= i < hi <= d.len() && hi <= usize::MAX) {
        Lookup::Absent
    } else {
        match spec_header(d.subrange(i, hi)) {
            HeaderStep::Header(h) => {
                let t = BoxSpan {
                    box_type: h.box_type,
                    box_size: h.box_size,
                    start: i as usize,
                    header_size: h.header_size as usize,
                    end: (i + h.box_size) as usize,
                };
                if h.box_size > hi - i {
                    Lookup::Malformed
                } else if h.box_type == TRAK && spec_is_video_trak(d, t) {
                    Lookup::Found(t)
                } else {
                    spec_video_trak(d, i + h.box_size, hi)
                }
            },
            _ => Lookup::Malformed,
        }
    }
}

#[via_fn]
proof fn video_trak_decreases(d: Seq<u8>, i: int, hi: int) {
    if 0 <= i < hi <= d.len() && hi <= usize::MAX {
        lemma_header_fits(d.subrange(i, hi));
    }
}

fn is_video_trak(d: &[u8], t: BoxSpan) -> (r: bool)
    requires
        t.start + t.header_size <= t.end <= d@.len(),
    ensures
        r == spec_is_video_trak(d@, t),
{
    let _n = d.len();
    let path: [u32; 2] = [MDIA, HDLR];
    assert(path@ == seq![MDIA, HDLR]);
    proof {
        lemma_find_path_span(d@, path@, t.body_start(), t.end as int);
    }
    match find_box_in(d, path.as_slice(), t.start + t.header_size, t.end) {
        Lookup::Found(h) => h.end - (h.start + h.header_size) >= 12 && read_be_u32(
            d,
            h.start + h.header_size + 8,
        ) == VIDE,
        _ => false,
    }
}

/// Finds the first video track among the boxes from `lo` to `hi`.
pub fn find_video_trak(d: &[u8], lo: usize, hi: usize) -> (r: Lookup)
    requires
        lo <= hi <= d@.len(),
    ensures
        r == spec_video_trak(d@, lo as int, hi as int),
{
    let _n = d.len();
    let mut i = lo;
    while i < hi
        invariant
            lo <= i <= hi <= d@.len() <= usize::MAX,
            spec_video_trak(d@, lo as int, hi as int) == spec_video_trak(d@, i as int, hi as int),
        decreases hi - i,
    {
        proof {
            lemma_header_fits(d@.subrange(i as int, hi as int));
        }
        match parse_header(d, i, hi) {
            HeaderStep::Header(h) => {
                if h.box_size > (hi - i) as u64 {
                    return Lookup::Malformed;
                }
                let t = BoxSpan {
                    box_type: h.box_type,
                    box_size: h.box_size,
                    start: i,
                    header_size: h.header_size as usize,
                    end: i + h.box_size as usize,
                };
                if h.box_type == TRAK && is_video_trak(d, t) {
                    return Lookup::Found(t);
                }
                i = i + h.box_size as usize;
            },
            _ => {
                return Lookup::Malformed;
            },
        }
    }
    Lookup::Absent
}

/// Width and height from the `tkhd` of the first video track among the
/// boxes from `lo` to `hi`.
pub open spec fn spec_video_size(d: Seq<u8>, lo: int, hi: int) -> Option<(u32, u32)> {
    match spec_video_trak(d, lo, hi) {
        Lookup::Found(t) => match spec_first_box(d, TKHD, t.body_start(), t.end as int) {
            Lookup::Found(k) => spec_tkhd(d, k.body_start(), k.end as int),
            _ => None,
        },
        _ => None,
    }
}

/// Reads the size of the video track among the boxes from `lo` to `hi`.
pub fn parse_video_tkhd_in_moov(d: &[u8], lo: usize, hi: usize) -> (r: Option<(u32, u32)>)
    requires
        lo <= hi <= d@.len(),
    ensures
        r == spec_video_size(d@, lo as int, hi as int),
{
    let _n = d.len();
    match find_video_trak(d, lo, hi) {
        Lookup::Found(t) => {
            proof {
                lemma_video_trak_span(d@, lo as int, hi as int);
                lemma_first_box_span(d@, TKHD, t.body_start(), t.end as int);
            }
            match first_box(d, TKHD, t.start + t.header_size, t.end) {
                Lookup::Found(k) => parse_tkhd(d, k.start + k.header_size, k.end),
                _ => None,
            }
        },
        _ => None,
    }
}

proof fn lemma_video_trak_span(d: Seq<u8>, i: int, hi: int)
    requires
        d.len() <= usize::MAX,
    ensures
        spec_video_trak(d, i, hi) matches Lookup::Found(s) ==> s.is_consistent() && i <= s.start
            && s.end <= hi,
    decreases hi - i,
{
    if 0 <= i < hi <= d.len() {
        lemma_header_fits(d.subrange(i, hi));
        if let HeaderStep::Header(h) = spec_header(d.subrange(i, hi)) {
            if h.box_size <= hi - i {
                lemma_video_trak_span(d, i + h.box_size, hi);
            }
        }
    }
}

} // verus!
