//! TIFF/Exif image file directories (IFDs), read lazily: a directory entry
//! is decoded only when asked for, and its value only when resolved, so a
//! damaged entry never stands in the way of the others.
use vstd::prelude::*;
use vstd::slice::slice_to_vec;

verus! {

/// Byte order of a TIFF stream, fixed by its header.
#[derive(Clone, Copy, Debug, PartialEq, Eq, Structural)]
pub enum ByteOrder {
    /// `II`
    Little,
    /// `MM`
    Big,
}

pub open spec fn spec_u16(d: Seq<u8>, i: int, o: ByteOrder) -> u16 {
    match o {
        ByteOrder::Big => ((d[i] as u16) << 8u16) | (d[i + 1] as u16),
        ByteOrder::Little => ((d[i + 1] as u16) << 8u16) | (d[i] as u16),
    }
}

pub open spec fn spec_u32(d: Seq<u8>, i: int, o: ByteOrder) -> u32 {
    match o {
        ByteOrder::Big => ((spec_u16(d, i, o) as u32) << 16u32) | (spec_u16(d, i + 2, o) as u32),
        ByteOrder::Little => ((spec_u16(d, i + 2, o) as u32) << 16u32) | (spec_u16(d, i, o) as u32),
    }
}

pub fn read_u16(d: &[u8], i: usize, o: ByteOrder) -> (r: u16)
    requires
        i + 2 <= d@.len(),
    ensures
        r == spec_u16(d@, i as int, o),
{
    let _n = d.len();
    match o {
        ByteOrder::Big => ((d[i] as u16) << 8u16) | (d[i + 1] as u16),
        ByteOrder::Little => ((d[i + 1] as u16) << 8u16) | (d[i] as u16),
    }
}

pub fn read_u32(d: &[u8], i: usize, o: ByteOrder) -> (r: u32)
    requires
        i + 4 <= d@.len(),
    ensures
        r == spec_u32(d@, i as int, o),
{
    let _n = d.len();
    match o {
        ByteOrder::Big => ((read_u16(d, i, o) as u32) << 16u32) | (read_u16(d, i + 2, o) as u32),
        ByteOrder::Little => ((read_u16(d, i + 2, o) as u32) << 16u32) | (read_u16(d, i, o) as u32),
    }
}

/// The byte order and the offset of the first IFD given by the 8-byte TIFF
/// header at the start of `d`: `II` or `MM`, the number 42, the offset.
pub open spec fn spec_tiff_header(d: Seq<u8>) -> Option<(ByteOrder, u32)> {
    if d.len() < 8 {
        None
    } else if d[0] == 0x49 && d[1] == 0x49 && spec_u16(d, 2, ByteOrder::Little) == 42 {
        Some((ByteOrder::Little, spec_u32(d, 4, ByteOrder::Little)))
    } else if d[0] == 0x4d && d[1] == 0x4d && spec_u16(d, 2, ByteOrder::Big) == 42 {
        Some((ByteOrder::Big, spec_u32(d, 4, ByteOrder::Big)))
    } else {
        None
    }
}

pub fn parse_tiff_header(d: &[u8]) -> (r: Option<(ByteOrder, u32)>)
    ensures
        r == spec_tiff_header(d@),
{
    if d.len() < 8 {
        None
    } else if d[0] == 0x49 && d[1] == 0x49 && read_u16(d, 2, ByteOrder::Little) == 42 {
        Some((ByteOrder::Little, read_u32(d, 4, ByteOrder::Little)))
    } else if d[0] == 0x4d && d[1] == 0x4d && read_u16(d, 2, ByteOrder::Big) == 42 {
        Some((ByteOrder::Big, read_u32(d, 4, ByteOrder::Big)))
    } else {
        None
    }
}

/// An IFD of `d`: where it starts and the byte order of the stream.
#[derive(Clone, Copy, Debug, PartialEq, Eq, Structural)]
pub struct Ifd {
    pub order: ByteOrder,
    pub offset: usize,
}

/// The number of entries of an IFD: its first two bytes.
pub open spec fn spec_entry_count(d: Seq<u8>, ifd: Ifd) -> Option<u16> {
    if ifd.offset + 2 > d.len() {
        None
    } else {
        Some(spec_u16(d, ifd.offset as int, ifd.order))
    }
}

pub fn entry_count(d: &[u8], ifd: Ifd) -> (r: Option<u16>)
    ensures
        r == spec_entry_count(d@, ifd),
{
    if ifd.offset > d.len() || d.len() - ifd.offset < 2 {
        None
    } else {
        Some(read_u16(d, ifd.offset, ifd.order))
    }
}

/// One directory entry, not yet resolved: tag, type code, count, and where
/// its 4-byte value-or-offset field sits in the stream.
#[derive(Clone, Copy, Debug, PartialEq, Eq, Structural)]
pub struct IfdEntry {
    pub tag: u16,
    pub value_type: u16,
    pub count: u32,
    pub value_or_offset: u32,
    pub field_pos: usize,
}

/// Where the 12-byte entry `k` of an IFD starts.
pub open spec fn spec_entry_pos(ifd: Ifd, k: int) -> int {
    ifd.offset + 2 + 12 * k
}

/// Entry `k` of an IFD, read from its 12 bytes alone.
pub open spec fn spec_entry(d: Seq<u8>, ifd: Ifd, k: int) -> Option<IfdEntry> {
    let p = spec_entry_pos(ifd, k);
    match spec_entry_count(d, ifd) {
        Some(n) => if 0 <= k < n && p + 12 <= d.len() {
            Some(
                IfdEntry {
                    tag: spec_u16(d, p, ifd.order),
                    value_type: spec_u16(d, p + 2, ifd.order),
                    count: spec_u32(d, p + 4, ifd.order),
                    value_or_offset: spec_u32(d, p + 8, ifd.order),
                    field_pos: (p + 8) as usize,
                },
            )
        } else {
            None
        },
        None => None,
    }
}

/// Reads entry `k` of an IFD. Entries can be read in any order, or only
/// some of them.
pub fn entry(d: &[u8], ifd: Ifd, k: u16) -> (r: Option<IfdEntry>)
    ensures
        r == spec_entry(d@, ifd, k as int),
{
    let n = match entry_count(d, ifd) {
        Some(n) => n,
        None => {
            return None;
        },
    };
    if k >= n {
        return None;
    }
    let len = d.len();
    let p = ifd.offset as u128 + 2 + 12 * k as u128;
    if p + 12 > len as u128 {
        return None;
    }
    let p = p as usize;
    Some(
        IfdEntry {
            tag: read_u16(d, p, ifd.order),
            value_type: read_u16(d, p + 2, ifd.order),
            count: read_u32(d, p + 4, ifd.order),
            value_or_offset: read_u32(d, p + 8, ifd.order),
            field_pos: p + 8,
        },
    )
}

/// The offset of the IFD that follows, written after the last entry; 0
/// means there is none.
pub open spec fn spec_next_ifd(d: Seq<u8>, ifd: Ifd) -> Option<u32> {
    match spec_entry_count(d, ifd) {
        Some(n) => {
            let p = spec_entry_pos(ifd, n as int);
            if p + 4 <= d.len() {
                Some(spec_u32(d, p, ifd.order))
            } else {
                None
            }
        },
        None => None,
    }
}

pub fn next_ifd(d: &[u8], ifd: Ifd) -> (r: Option<u32>)
    ensures
        r == spec_next_ifd(d@, ifd),
{
    let n = match entry_count(d, ifd) {
        Some(n) => n,
        None => {
            return None;
        },
    };
    let len = d.len();
    let p = ifd.offset as u128 + 2 + 12 * n as u128;
    if p + 4 > len as u128 {
        None
    } else {
        Some(read_u32(d, p as usize, ifd.order))
    }
}

/// Bytes per component of a TIFF type code; 0 for an unknown code.
pub open spec fn spec_type_size(t: u16) -> u64 {
    if t == 1 || t == 2 || t == 6 || t == 7 {
        1
    } else if t == 3 || t == 8 {
        2
    } else if t == 4 || t == 9 || t == 11 {
        4
    } else if t == 5 || t == 10 || t == 12 {
        8
    } else {
        0
    }
}

pub fn type_size(t: u16) -> (r: u64)
    ensures
        r == spec_type_size(t),
{
    if t == 1 || t == 2 || t == 6 || t == 7 {
        1
    } else if t == 3 || t == 8 {
        2
    } else if t == 4 || t == 9 || t == 11 {
        4
    } else if t == 5 || t == 10 || t == 12 {
        8
    } else {
        0
    }
}

/// Why one entry's value cannot be resolved. Other entries are unaffected.
#[derive(Clone, Copy, Debug, PartialEq, Eq, Structural)]
pub enum EntryError {
    UnknownType(u16),
    /// The value lies outside the data.
    OutOfBounds,
}

/// Where the value of an entry lies: inline in its value-or-offset field
/// when `count` components fit in 4 bytes, else at the offset that field
/// holds.
pub open spec fn spec_value_range(d: Seq<u8>, e: IfdEntry) -> Result<(int, int), EntryError> {
    let size = spec_type_size(e.value_type) * e.count;
    if spec_type_size(e.value_type) == 0 {
        Err(EntryError::UnknownType(e.value_type))
    } else if size <= 4 {
        if e.field_pos + size <= d.len() {
            Ok((e.field_pos as int, e.field_pos + size))
        } else {
            Err(EntryError::OutOfBounds)
        }
    } else if e.value_or_offset + size <= d.len() {
        Ok((e.value_or_offset as int, e.value_or_offset + size))
    } else {
        Err(EntryError::OutOfBounds)
    }
}

/// A resolved value: its type code, its component count and its bytes, in
/// the stream's byte order.
#[derive(Clone, Debug, PartialEq, Eq)]
pub struct ExifValue {
    pub value_type: u16,
    pub count: u32,
    pub bytes: Vec<u8>,
}

/// Resolves the value of an entry, following the offset when the value does
/// not fit inline. The result depends on the entry and the bytes of its
/// value alone.
pub fn resolve_value(d: &[u8], e: IfdEntry) -> (r: Result<ExifValue, EntryError>)
    ensures
        match spec_value_range(d@, e) {
            Ok((a, b)) => r matches Ok(v) && v.value_type == e.value_type && v.count == e.count
                && v.bytes@ == d@.subrange(a, b),
            Err(err) => r == Err::<ExifValue, EntryError>(err),
        },
{
    let len = d.len() as u64;
    let unit = type_size(e.value_type);
    if unit == 0 {
        return Err(EntryError::UnknownType(e.value_type));
    }
    let size = unit * e.count as u64;
    let start = if size <= 4 {
        e.field_pos as u64
    } else {
        e.value_or_offset as u64
    };
    if start > len || size > len - start {
        return Err(EntryError::OutOfBounds);
    }
    let a = start as usize;
    let b = (start + size) as usize;
    Ok(ExifValue { value_type: e.value_type, count: e.count, bytes: slice_to_vec(&d[a..b]) })
}

/// Resolving entries lazily gives each the value it would have had in a
/// full pass: entry `k` depends only on the IFD's count field, its own 12
/// bytes and the bytes of its value. So two streams that agree there give
/// entry `k` the same descriptor and the same value, whatever the other
/// entries hold, damaged or not.
pub proof fn lemma_entry_is_independent(d: Seq<u8>, d2: Seq<u8>, ifd: Ifd, k: int)
    requires
        d.len() == d2.len(),
        ifd.offset + 2 <= d.len(),
        forall|i: int| ifd.offset <= i < ifd.offset + 2 ==> d[i] == d2[i],
        forall|i: int| spec_entry_pos(ifd, k) <= i < spec_entry_pos(ifd, k) + 12 && i < d.len() ==> d[i] == d2[i],
        spec_entry(d, ifd, k) matches Some(e) ==> (spec_value_range(d, e) matches Ok((a, b)) ==> forall|i: int|
            a <= i < b ==> d[i] == d2[i]),
    ensures
        spec_entry(d, ifd, k) == spec_entry(d2, ifd, k),
        spec_entry(d, ifd, k) matches Some(e) ==> spec_value_range(d, e) == spec_value_range(d2, e)
            && (spec_value_range(d, e) matches Ok((a, b)) ==> d.subrange(a, b) == d2.subrange(a, b)),
{
    let o = ifd.offset as int;
    assert(d[o] == d2[o] && d[o + 1] == d2[o + 1]);
    let p = spec_entry_pos(ifd, k);
    if spec_entry(d, ifd, k) is Some {
        assert(p + 12 <= d.len());
        assert forall|i: int| p <= i < p + 12 implies d[i] == d2[i] by {}
        assert(spec_entry(d, ifd, k) == spec_entry(d2, ifd, k));
        let e = spec_entry(d, ifd, k)->Some_0;
        if let Ok((a, b)) = spec_value_range(d, e) {
            assert(d.subrange(a, b) =~= d2.subrange(a, b));
        }
    }
}

/// A lazy walk over the entries of one IFD: each call hands out the next
/// descriptor and nothing more. Walk again with a fresh iterator.
pub struct ExifIter {
    ifd: Ifd,
    index: u16,
}

impl ExifIter {
    pub closed spec fn spec_ifd(&self) -> Ifd {
        self.ifd
    }

    /// How many entries have been handed out.
    pub closed spec fn spec_index(&self) -> u16 {
        self.index
    }

    pub fn new(ifd: Ifd) -> (r: ExifIter)
        ensures
            r.spec_ifd() == ifd,
            r.spec_index() == 0,
    {
        ExifIter { ifd, index: 0 }
    }

    /// The next entry of the IFD in `d`: `None` once all have been handed
    /// out, `Some(None)` for an entry that lies outside the data.
    pub fn next_entry(&mut self, d: &[u8]) -> (r: Option<Option<IfdEntry>>)
        ensures
            final(self).spec_ifd() == old(self).spec_ifd(),
            match spec_entry_count(d@, old(self).spec_ifd()) {
                Some(n) => if old(self).spec_index() < n {
                    r == Some(spec_entry(d@, old(self).spec_ifd(), old(self).spec_index() as int))
                        && final(self).spec_index() == old(self).spec_index() + 1
                } else {
                    r is None && final(self).spec_index() == old(self).spec_index()
                },
                None => r is None && final(self).spec_index() == old(self).spec_index(),
            },
    {
        match entry_count(d, self.ifd) {
            Some(n) => {
                if self.index < n {
                    let e = entry(d, self.ifd, self.index);
                    self.index = self.index + 1;
                    Some(e)
                } else {
                    None
                }
            },
            None => None,
        }
    }
}

/// Tag of the pointer to the Exif sub-IFD.
pub const EXIF_IFD_TAG: u16 = 0x8769;
/// Tag of the pointer to the GPS sub-IFD.
pub const GPS_IFD_TAG: u16 = 0x8825;

/// The sub-IFD an entry points to, when it is an Exif or GPS IFD pointer
/// (a single LONG whose value is the offset).
pub open spec fn spec_sub_ifd(e: IfdEntry, order: ByteOrder) -> Option<Ifd> {
    if (e.tag == EXIF_IFD_TAG || e.tag == GPS_IFD_TAG) && e.value_type == 4 && e.count == 1 {
        Some(Ifd { order, offset: e.value_or_offset as usize })
    } else {
        None
    }
}

pub fn sub_ifd(e: IfdEntry, order: ByteOrder) -> (r: Option<Ifd>)
    ensures
        r == spec_sub_ifd(e, order),
{
    if (e.tag == EXIF_IFD_TAG || e.tag == GPS_IFD_TAG) && e.value_type == 4 && e.count == 1 {
        Some(Ifd { order, offset: e.value_or_offset as usize })
    } else {
        None
    }
}

} // verus!

verus! {

/// The first readable entry with tag `tag` among entries `k..` of an IFD.
/// Unreadable entries are passed over.
pub open spec fn spec_find_tag(d: Seq<u8>, ifd: Ifd, tag: u16, k: int) -> Option<IfdEntry>
    decreases 0x10000 - k,
{
    match spec_entry_count(d, ifd) {
        Some(n) => if 0 <= k < n {
            match spec_entry(d, ifd, k) {
                Some(e) => if e.tag == tag {
                    Some(e)
                } else {
                    spec_find_tag(d, ifd, tag, k + 1)
                },
                None => spec_find_tag(d, ifd, tag, k + 1),
            }
        } else {
            None
        },
        None => None,
    }
}

/// Finds the first readable entry with tag `tag`.
pub fn find_tag(d: &[u8], ifd: Ifd, tag: u16) -> (r: Option<IfdEntry>)
    ensures
        r == spec_find_tag(d@, ifd, tag, 0),
{
    let n = match entry_count(d, ifd) {
        Some(n) => n,
        None => {
            return None;
        },
    };
    let mut k: u16 = 0;
    while k < n
        invariant
            spec_entry_count(d@, ifd) == Some(n),
            spec_find_tag(d@, ifd, tag, 0) == spec_find_tag(d@, ifd, tag, k as int),
        decreases n - k,
    {
        if let Some(e) = entry(d, ifd, k) {
            if e.tag == tag {
                return Some(e);
            }
        }
        k = k + 1;
    }
    None
}

/// An unsigned rational, numerator and denominator.
#[derive(Clone, Copy, Debug, PartialEq, Eq, Structural)]
pub struct URational {
    pub num: u32,
    pub den: u32,
}

/// Degrees, minutes and seconds.
#[derive(Clone, Copy, Debug, PartialEq, Eq, Structural)]
pub struct LatLng {
    pub degrees: URational,
    pub minutes: URational,
    pub seconds: URational,
}

/// GPS position from a GPS IFD: hemisphere references (`N`/`S`, `E`/`W`),
/// coordinates, and the altitude with its reference (0 above sea level,
/// 1 below) when present.
#[derive(Clone, Copy, Debug, PartialEq, Eq, Structural)]
pub struct GpsInfo {
    pub latitude_ref: char,
    pub latitude: LatLng,
    pub longitude_ref: char,
    pub longitude: LatLng,
    pub altitude_ref: u8,
    pub altitude: Option<URational>,
}

pub const GPS_LATITUDE_REF: u16 = 1;
pub const GPS_LATITUDE: u16 = 2;
pub const GPS_LONGITUDE_REF: u16 = 3;
pub const GPS_LONGITUDE: u16 = 4;
pub const GPS_ALTITUDE_REF: u16 = 5;
pub const GPS_ALTITUDE: u16 = 6;

/// The `j`-th rational of an entry of type RATIONAL with more than `j`
/// components.
pub open spec fn spec_rational(d: Seq<u8>, o: ByteOrder, e: IfdEntry, j: int) -> Option<URational> {
    match spec_value_range(d, e) {
        Ok((a, _)) => if e.value_type == 5 && 0 <= j < e.count {
            Some(
                URational {
                    num: spec_u32(d, a + 8 * j, o),
                    den: spec_u32(d, a + 8 * j + 4, o),
                },
            )
        } else {
            None
        },
        Err(_) => None,
    }
}

fn rational(d: &[u8], o: ByteOrder, e: IfdEntry, j: u32) -> (r: Option<URational>)
    ensures
        r == spec_rational(d@, o, e, j as int),
{
    let len = d.len() as u64;
    if e.value_type != 5 || j >= e.count {
        return None;
    }
    let size = 8 * e.count as u64;
    let a = if size <= 4 {
        e.field_pos as u64
    } else {
        e.value_or_offset as u64
    };
    if a > len || size > len - a {
        return None;
    }
    let p = (a + 8 * j as u64) as usize;
    Some(URational { num: read_u32(d, p, o), den: read_u32(d, p + 4, o) })
}

/// The coordinate held by the entry with tag `tag`: three rationals.
pub open spec fn spec_lat_lng(d: Seq<u8>, ifd: Ifd, tag: u16) -> Option<LatLng> {
    match spec_find_tag(d, ifd, tag, 0) {
        Some(e) => if e.count != 3 {
            None
        } else {
            match (
                spec_rational(d, ifd.order, e, 0),
                spec_rational(d, ifd.order, e, 1),
                spec_rational(d, ifd.order, e, 2),
            ) {
                (Some(a), Some(b), Some(c)) => Some(LatLng { degrees: a, minutes: b, seconds: c }),
                _ => None,
            }
        },
        None => None,
    }
}

fn lat_lng(d: &[u8], ifd: Ifd, tag: u16) -> (r: Option<LatLng>)
    ensures
        r == spec_lat_lng(d@, ifd, tag),
{
    let e = match find_tag(d, ifd, tag) {
        Some(e) => e,
        None => {
            return None;
        },
    };
    if e.count != 3 {
        return None;
    }
    match (rational(d, ifd.order, e, 0), rational(d, ifd.order, e, 1), rational(d, ifd.order, e, 2)) {
        (Some(a), Some(b), Some(c)) => Some(LatLng { degrees: a, minutes: b, seconds: c }),
        _ => None,
    }
}

/// The first byte of the value of the entry with tag `tag` (an ASCII
/// reference letter or a BYTE flag).
pub open spec fn spec_first_byte(d: Seq<u8>, ifd: Ifd, tag: u16) -> Option<u8> {
    match spec_find_tag(d, ifd, tag, 0) {
        Some(e) => match spec_value_range(d, e) {
            Ok((a, b)) => if a < b {
                Some(d[a])
            } else {
                None
            },
            Err(_) => None,
        },
        None => None,
    }
}

fn first_byte(d: &[u8], ifd: Ifd, tag: u16) -> (r: Option<u8>)
    ensures
        r == spec_first_byte(d@, ifd, tag),
{
    let e = match find_tag(d, ifd, tag) {
        Some(e) => e,
        None => {
            return None;
        },
    };
    match resolve_value(d, e) {
        Ok(v) => if v.bytes.len() > 0 {
            Some(v.bytes[0])
        } else {
            None
        },
        Err(_) => None,
    }
}

/// The GPS position of a GPS IFD: both references and both coordinates
/// are required; the altitude is optional, its reference 0 when absent.
pub open spec fn spec_gps_info(d: Seq<u8>, ifd: Ifd) -> Option<GpsInfo> {
    match (
        spec_first_byte(d, ifd, GPS_LATITUDE_REF),
        spec_lat_lng(d, ifd, GPS_LATITUDE),
        spec_first_byte(d, ifd, GPS_LONGITUDE_REF),
        spec_lat_lng(d, ifd, GPS_LONGITUDE),
    ) {
        (Some(lat_ref), Some(lat), Some(lng_ref), Some(lng)) => Some(
            GpsInfo {
                latitude_ref: lat_ref as char,
                latitude: lat,
                longitude_ref: lng_ref as char,
                longitude: lng,
                altitude_ref: match spec_first_byte(d, ifd, GPS_ALTITUDE_REF) {
                    Some(b) => b,
                    None => 0,
                },
                altitude: match spec_find_tag(d, ifd, GPS_ALTITUDE, 0) {
                    Some(e) => spec_rational(d, ifd.order, e, 0),
                    None => None,
                },
            },
        ),
        _ => None,
    }
}

/// Reads the GPS position out of a GPS IFD.
pub fn parse_gps_info(d: &[u8], ifd: Ifd) -> (r: Option<GpsInfo>)
    ensures
        r == spec_gps_info(d@, ifd),
{
    let lat_ref = first_byte(d, ifd, GPS_LATITUDE_REF);
    let lat = lat_lng(d, ifd, GPS_LATITUDE);
    let lng_ref = first_byte(d, ifd, GPS_LONGITUDE_REF);
    let lng = lat_lng(d, ifd, GPS_LONGITUDE);
    match (lat_ref, lat, lng_ref, lng) {
        (Some(lat_ref), Some(lat), Some(lng_ref), Some(lng)) => {
            let altitude_ref = match first_byte(d, ifd, GPS_ALTITUDE_REF) {
                Some(b) => b,
                None => 0,
            };
            let altitude = match find_tag(d, ifd, GPS_ALTITUDE) {
                Some(e) => rational(d, ifd.order, e, 0),
                None => None,
            };
            Some(
                GpsInfo {
                    latitude_ref: lat_ref as char,
                    latitude: lat,
                    longitude_ref: lng_ref as char,
                    longitude: lng,
                    altitude_ref,
                    altitude,
                },
            )
        },
        _ => None,
    }
}

} // verus!
