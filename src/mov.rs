//! MOV/MP4 metadata: locating the `moov` box in a buffer that holds only
//! part of a stream, and assembling the metadata found inside it.
use vstd::prelude::*;

use crate::bbox::{
    find_box, first_box, lemma_first_box_span, lemma_header_fits, parse_header, spec_be_u32,
    spec_be_u64, spec_find_path, spec_first_box, spec_header, HeaderStep, Lookup,
};
use crate::text::{latin1, latin1_string};
use crate::track::{parse_mvhd, parse_video_tkhd_in_moov, spec_mvhd, spec_video_size};
use crate::meta::{parse_ilst, parse_keys, spec_items, spec_keys, strings_view, values_view};
use crate::values::{EntryValue, Timestamp, ValueView};

verus! {

/// Type tag `moov`.
pub const MOOV: u32 = 0x6d6f_6f76;

/// Why a scan of the buffered bytes could not return the `moov` body yet.
///
/// `Skip` and `Need` are requests to the owner of the buffer, not failures:
/// metadata usually sits after large media data, which a seekable source
/// can step over without reading it.
#[derive(Clone, Copy, Debug, PartialEq, Eq, Structural)]
pub enum Error {
    /// Every buffered byte has been used: drop them all, and skip this many
    /// bytes of the stream that follow them, before scanning again with the
    /// bytes read after the skip.
    Skip(u64),
    /// At least this many more bytes must follow the buffered ones.
    Need(u64),
    /// The bytes cannot hold a `moov` box.
    ParseFailed,
}

/// The scan for `moov` over the top-level boxes of `d`, from offset `i`.
/// Boxes before `moov` that lie wholly in `d` are stepped over; the first one
/// that runs past the end of `d` asks for a skip of its remaining bytes.
pub open spec fn spec_moov_scan(d: Seq<u8>, i: int) -> Result<(usize, usize), Error>
    decreases d.len() - i via moov_scan_decreases
{
    if !(0 <= i <= d.len() <= usize::MAX) {
        Err(Error::ParseFailed)
    } else {
        match spec_header(d.subrange(i, d.len() as int)) {
            HeaderStep::Incomplete(n) => Err(Error::Need(n as u64)),
            HeaderStep::Malformed => Err(Error::ParseFailed),
            HeaderStep::Header(h) => {
                let avail = d.len() - i - h.header_size;
                let body = h.spec_body_size();
                if h.to_end {
                    Err(Error::ParseFailed)
                } else if h.box_type == MOOV {
                    if avail < body {
                        Err(Error::Need((body - avail) as u64))
                    } else {
                        Ok(((i + h.header_size) as usize, (i + h.box_size) as usize))
                    }
                } else if avail < body {
                    Err(Error::Skip((body - avail) as u64))
                } else {
                    spec_moov_scan(d, i + h.box_size)
                }
            },
        }
    }
}

#[via_fn]
proof fn moov_scan_decreases(d: Seq<u8>, i: int) {
    if 0 <= i <= d.len() <= usize::MAX {
        lemma_header_fits(d.subrange(i, d.len() as int));
    }
}

/// Scans the buffered bytes `input` for the `moov` box and returns the range
/// of its body, or what the caller must do before scanning again.
pub fn extract_moov_body_from_buf(input: &[u8]) -> (r: Result<(usize, usize), Error>)
    ensures
        r == spec_moov_scan(input@, 0),
        r matches Ok((a, b)) ==> 8 <= a <= b <= input@.len(),
{
    let n = input.len();
    let mut i: usize = 0;
    while i <= n
        invariant
            i <= n == input@.len(),
            spec_moov_scan(input@, 0) == spec_moov_scan(input@, i as int),
            i >= 8 || i == 0,
        decreases n - i,
    {
        proof {
            lemma_header_fits(input@.subrange(i as int, n as int));
        }
        match parse_header(input, i, n) {
            HeaderStep::Incomplete(k) => {
                return Err(Error::Need(k as u64));
            },
            HeaderStep::Malformed => {
                return Err(Error::ParseFailed);
            },
            HeaderStep::Header(h) => {
                let avail = (n - i) as u64 - h.header_size;
                let body = h.body_size();
                if h.to_end {
                    return Err(Error::ParseFailed);
                }
                if h.box_type == MOOV {
                    if avail < body {
                        return Err(Error::Need(body - avail));
                    }
                    return Ok((i + h.header_size as usize, i + h.box_size as usize));
                }
                if avail < body {
                    return Err(Error::Skip(body - avail));
                }
                i = i + h.box_size as usize;
            },
        }
    }
    Err(Error::ParseFailed)
}

} // verus!

verus! {

pub const META: u32 = 0x6d65_7461;
pub const KEYS: u32 = 0x6b65_7973;
pub const ILST: u32 = 0x696c_7374;
pub const MVHD: u32 = 0x6d76_6864;
pub const UDTA: u32 = 0x7564_7461;
/// Type tag `©xyz`, where Android phones store an ISO 6709 location.
pub const XYZ: u32 = 0xa978_797a;

pub const LOCATION_KEY: &'static str = "com.apple.quicktime.location.ISO6709";
pub const CREATIONDATE_KEY: &'static str = "com.apple.quicktime.creationdate";
pub const DURATION_KEY: &'static str = "duration";
pub const WIDTH_KEY: &'static str = "width";
pub const HEIGHT_KEY: &'static str = "height";

/// Why the metadata of a stream could not be extracted.
#[derive(Clone, Copy, Debug, PartialEq, Eq, Structural)]
pub enum MetadataError {
    /// The stream ended before the `moov` box was complete.
    SourceExhausted,
    /// The top-level boxes do not lead to a `moov` box.
    MoovNotFound,
    /// The `moov` body holds a malformed box where metadata was looked for.
    InvalidMoov,
}

/// Metadata entries as keys and values.
pub type Entries = Seq<(Seq<char>, ValueView)>;

pub open spec fn entries_view(v: Seq<(String, EntryValue)>) -> Entries {
    v.map_values(|p: (String, EntryValue)| (p.0@, p.1@))
}

/// The first index from `i` on whose key is `k`.
pub open spec fn spec_position_from(e: Entries, k: Seq<char>, i: int) -> Option<int>
    decreases e.len() - i,
{
    if !(0 <= i < e.len()) {
        None
    } else if e[i].0 == k {
        Some(i)
    } else {
        spec_position_from(e, k, i + 1)
    }
}

pub open spec fn spec_position(e: Entries, k: Seq<char>) -> Option<int> {
    spec_position_from(e, k, 0)
}

pub open spec fn spec_has_key(e: Entries, k: Seq<char>) -> bool {
    spec_position(e, k) is Some
}

/// Keys and values paired by position; the longer list is cut to the
/// shorter.
pub open spec fn spec_zip(keys: Seq<Seq<char>>, values: Seq<ValueView>) -> Entries {
    let n = if keys.len() < values.len() {
        keys.len()
    } else {
        values.len()
    };
    Seq::new(n, |i: int| (keys[i], values[i]))
}

/// The entries of `moov/meta/keys` and `moov/meta/ilst` of the `moov` body
/// `d`: `None` when one of the boxes is absent.
pub open spec fn spec_moov_body(d: Seq<u8>) -> Result<Option<Entries>, ()> {
    match spec_first_box(d, META, 0, d.len() as int) {
        Lookup::Malformed => Err(()),
        Lookup::Absent => Ok(None),
        Lookup::Found(m) => match spec_first_box(d, KEYS, m.body_start(), m.end as int) {
            Lookup::Malformed => Err(()),
            Lookup::Absent => Ok(None),
            Lookup::Found(k) => match spec_first_box(d, ILST, m.body_start(), m.end as int) {
                Lookup::Malformed => Err(()),
                Lookup::Absent => Ok(None),
                Lookup::Found(l) => match (
                    spec_keys(d, k.body_start(), k.end as int),
                    spec_items(d, l.body_start(), l.end as int),
                ) {
                    (Some(ks), Some(vs)) => Ok(Some(spec_zip(ks, vs))),
                    _ => Err(()),
                },
            },
        },
    }
}

fn zip_entries(keys: &Vec<String>, values: &Vec<EntryValue>) -> (r: Vec<(String, EntryValue)>)
    ensures
        entries_view(r@) == spec_zip(strings_view(keys@), values_view(values@)),
{
    let n = if keys.len() < values.len() {
        keys.len()
    } else {
        values.len()
    };
    let mut r: Vec<(String, EntryValue)> = Vec::new();
    let mut i: usize = 0;
    while i < n
        invariant
            i <= n <= keys@.len(),
            n <= values@.len(),
            n == spec_zip(strings_view(keys@), values_view(values@)).len(),
            entries_view(r@) =~= spec_zip(strings_view(keys@), values_view(values@)).subrange(
                0,
                i as int,
            ),
        decreases n - i,
    {
        let key = keys[i].clone();
        let value = values[i].duplicate();
        let ghost before = r@;
        r.push((key, value));
        proof {
            assert(key@ == strings_view(keys@)[i as int]);
            assert(value@ == values_view(values@)[i as int]);
            assert(entries_view(r@) =~= entries_view(before).push((key@, value@)));
        }
        i = i + 1;
    }
    r
}

/// Pairs the names of `meta/keys` with the values of `meta/ilst` in the
/// `moov` body `d`. `Ok(None)` when `meta`, `keys` or `ilst` is absent.
pub fn parse_moov_body(d: &[u8]) -> (r: Result<Option<Vec<(String, EntryValue)>>, ()>)
    ensures
        r matches Ok(Some(v)) ==> spec_moov_body(d@) == Ok::<_, ()>(Some(entries_view(v@))),
        r matches Ok(None) ==> spec_moov_body(d@) == Ok::<Option<Entries>, ()>(None),
        r is Err ==> spec_moov_body(d@) is Err,
{
    let n = d.len();
    proof {
        lemma_first_box_span(d@, META, 0, n as int);
    }
    let m = match first_box(d, META, 0, n) {
        Lookup::Found(m) => m,
        Lookup::Absent => {
            return Ok(None);
        },
        Lookup::Malformed => {
            return Err(());
        },
    };
    let lo = m.start + m.header_size;
    proof {
        lemma_first_box_span(d@, KEYS, lo as int, m.end as int);
        lemma_first_box_span(d@, ILST, lo as int, m.end as int);
    }
    let k = match first_box(d, KEYS, lo, m.end) {
        Lookup::Found(k) => k,
        Lookup::Absent => {
            return Ok(None);
        },
        Lookup::Malformed => {
            return Err(());
        },
    };
    let l = match first_box(d, ILST, lo, m.end) {
        Lookup::Found(l) => l,
        Lookup::Absent => {
            return Ok(None);
        },
        Lookup::Malformed => {
            return Err(());
        },
    };
    let keys = match parse_keys(d, k.start + k.header_size, k.end) {
        Some(keys) => keys,
        None => {
            return Err(());
        },
    };
    let values = match parse_ilst(d, l.start + l.header_size, l.end) {
        Some(values) => values,
        None => {
            return Err(());
        },
    };
    Ok(Some(zip_entries(&keys, &values)))
}

} // verus!

verus! {

/// What `chrono` reads from text in the `%+` format (ISO 8601 with a UTC
/// offset): Unix seconds, nanoseconds and the offset in seconds.
pub uninterp spec fn iso8601_time(s: Seq<char>) -> Option<(i64, u32, i32)>;

/// Relies on `chrono::DateTime::parse_from_str(s, "%+")`: whether the text
/// parses, and to which instant and offset, depends on the text alone.
#[verifier::external_body]
fn parse_iso8601(s: &str) -> (r: Option<Timestamp>)
    ensures
        r is None <==> iso8601_time(s@) is None,
        r matches Some(t) ==> iso8601_time(s@) == Some((t.secs, t.nanos, t.offset)),
{
    chrono::DateTime::parse_from_str(s, "%+").ok().map(
        |t|
            Timestamp {
                secs: t.timestamp(),
                nanos: t.timestamp_subsec_nanos(),
                offset: t.offset().local_minus_utc(),
            },
    )
}

/// Adds the `udta/©xyz` location when no entry holds one: the box body
/// after its 4-byte language prefix, read as ISO 8859-1 text.
pub open spec fn spec_with_location(d: Seq<u8>, e: Entries) -> Entries {
    if spec_has_key(e, LOCATION_KEY@) {
        e
    } else {
        match spec_find_path(d, seq![UDTA, XYZ], 0, d.len() as int) {
            Lookup::Found(b) => if b.end - b.body_start() > 4 {
                e.push(
                    (
                        LOCATION_KEY@,
                        ValueView::Text(latin1(d.subrange(b.body_start() + 4, b.end as int))),
                    ),
                )
            } else {
                e
            },
            _ => e,
        }
    }
}

/// Turns the first creation date entry into a timestamp when its text
/// parses; otherwise the text stays.
pub open spec fn spec_with_creation_time(e: Entries) -> Entries {
    match spec_position(e, CREATIONDATE_KEY@) {
        Some(p) => match e[p].1 {
            ValueView::Text(s) => match iso8601_time(s) {
                Some((secs, nanos, offset)) => e.update(
                    p,
                    (
                        CREATIONDATE_KEY@,
                        ValueView::Time(Timestamp { secs, nanos, offset }),
                    ),
                ),
                None => e,
            },
            _ => e,
        },
        None => e,
    }
}

/// Adds the duration from `mvhd`, and its creation time when no entry holds
/// one. A malformed box before `mvhd` is an error; an `mvhd` that does not
/// parse adds nothing.
pub open spec fn spec_with_mvhd(d: Seq<u8>, e: Entries) -> Result<Entries, ()> {
    match spec_first_box(d, MVHD, 0, d.len() as int) {
        Lookup::Malformed => Err(()),
        Lookup::Absent => Ok(e),
        Lookup::Found(b) => match spec_mvhd(d, b.body_start(), b.end as int) {
            None => Ok(e),
            Some(m) => {
                let e1 = e.push((DURATION_KEY@, ValueView::U32(m.spec_duration_ms())));
                if spec_has_key(e1, CREATIONDATE_KEY@) {
                    Ok(e1)
                } else {
                    Ok(e1.push((CREATIONDATE_KEY@, ValueView::Time(m.spec_creation_time()))))
                }
            },
        },
    }
}

/// Adds width and height of the video track, when there is one.
pub open spec fn spec_with_size(d: Seq<u8>, e: Entries) -> Entries {
    match spec_video_size(d, 0, d.len() as int) {
        Some((w, h)) => e.push((WIDTH_KEY@, ValueView::U32(w))).push(
            (HEIGHT_KEY@, ValueView::U32(h)),
        ),
        None => e,
    }
}

/// The metadata of the `moov` body `d`, in the order it is found: the
/// `keys`/`ilst` entries, the fallback location, the duration and creation
/// time of `mvhd`, and the video size.
pub open spec fn spec_moov_metadata(d: Seq<u8>) -> Result<Entries, MetadataError> {
    match spec_moov_body(d) {
        Err(_) => Err(MetadataError::InvalidMoov),
        Ok(o) => {
            let e0 = match o {
                Some(e) => e,
                None => Seq::empty(),
            };
            let e2 = spec_with_creation_time(spec_with_location(d, e0));
            match spec_with_mvhd(d, e2) {
                Err(_) => Err(MetadataError::InvalidMoov),
                Ok(e3) => Ok(spec_with_size(d, e3)),
            }
        },
    }
}

/// The index of the first entry whose key is `k`.
fn position(e: &Vec<(String, EntryValue)>, k: &str) -> (r: Option<usize>)
    ensures
        r matches Some(i) ==> spec_position(entries_view(e@), k@) == Some(i as int) && i
            < e@.len(),
        r is None ==> spec_position(entries_view(e@), k@) is None,
{
    let ks = k.to_owned();
    let mut i: usize = 0;
    while i < e.len()
        invariant
            i <= e@.len(),
            ks@ == k@,
            spec_position(entries_view(e@), k@) == spec_position_from(
                entries_view(e@),
                k@,
                i as int,
            ),
        decreases e@.len() - i,
    {
        if e[i].0 == ks {
            return Some(i);
        }
        i = i + 1;
    }
    None
}

fn has_key(e: &Vec<(String, EntryValue)>, k: &str) -> (r: bool)
    ensures
        r == spec_has_key(entries_view(e@), k@),
{
    position(e, k).is_some()
}

fn add_location(d: &[u8], entries: &mut Vec<(String, EntryValue)>)
    ensures
        entries_view(final(entries)@) == spec_with_location(d@, entries_view(old(entries)@)),
{
    if has_key(entries, LOCATION_KEY) {
        return;
    }
    let path: [u32; 2] = [UDTA, XYZ];
    assert(path@ == seq![UDTA, XYZ]);
    if let Lookup::Found(b) = find_box(d, path.as_slice()) {
        let lo = b.start + b.header_size;
        if b.end - lo > 4 {
            let ghost before = entries@;
            let text = latin1_string(d, lo + 4, b.end);
            entries.push((LOCATION_KEY.to_owned(), EntryValue::Text(text)));
            assert(entries_view(entries@) =~= entries_view(before).push(
                (LOCATION_KEY@, ValueView::Text(text@)),
            ));
        }
    }
}

fn convert_creation_time(entries: &mut Vec<(String, EntryValue)>)
    ensures
        entries_view(final(entries)@) == spec_with_creation_time(entries_view(old(entries)@)),
{
    if let Some(p) = position(entries, CREATIONDATE_KEY) {
        let parsed = match &entries[p].1 {
            EntryValue::Text(s) => parse_iso8601(s.as_str()),
            _ => None,
        };
        if let Some(t) = parsed {
            let ghost before = entries@;
            entries.set(p, (CREATIONDATE_KEY.to_owned(), EntryValue::Time(t)));
            assert(entries_view(entries@) =~= entries_view(before).update(
                p as int,
                (CREATIONDATE_KEY@, ValueView::Time(t)),
            ));
        }
    }
}

fn add_mvhd(d: &[u8], entries: &mut Vec<(String, EntryValue)>) -> (r: Result<(), ()>)
    ensures
        r is Ok ==> spec_with_mvhd(d@, entries_view(old(entries)@)) == Ok::<Entries, ()>(
            entries_view(final(entries)@),
        ),
        r is Err ==> spec_with_mvhd(d@, entries_view(old(entries)@)) is Err,
{
    let n = d.len();
    proof {
        lemma_first_box_span(d@, MVHD, 0, n as int);
    }
    match first_box(d, MVHD, 0, n) {
        Lookup::Malformed => Err(()),
        Lookup::Absent => Ok(()),
        Lookup::Found(b) => {
            if let Some(m) = parse_mvhd(d, b.start + b.header_size, b.end) {
                let ghost before = entries@;
                let ms = m.duration_ms();
                entries.push((DURATION_KEY.to_owned(), EntryValue::U32(ms)));
                assert(entries_view(entries@) =~= entries_view(before).push(
                    (DURATION_KEY@, ValueView::U32(ms)),
                ));
                if !has_key(entries, CREATIONDATE_KEY) {
                    let ghost before = entries@;
                    let t = m.creation_time();
                    entries.push((CREATIONDATE_KEY.to_owned(), EntryValue::Time(t)));
                    assert(entries_view(entries@) =~= entries_view(before).push(
                        (CREATIONDATE_KEY@, ValueView::Time(t)),
                    ));
                }
            }
            Ok(())
        },
    }
}

fn add_size(d: &[u8], entries: &mut Vec<(String, EntryValue)>)
    ensures
        entries_view(final(entries)@) == spec_with_size(d@, entries_view(old(entries)@)),
{
    let n = d.len();
    if let Some((w, h)) = parse_video_tkhd_in_moov(d, 0, n) {
        let ghost before = entries@;
        entries.push((WIDTH_KEY.to_owned(), EntryValue::U32(w)));
        entries.push((HEIGHT_KEY.to_owned(), EntryValue::U32(h)));
        assert(entries_view(entries@) =~= entries_view(before).push(
            (WIDTH_KEY@, ValueView::U32(w)),
        ).push((HEIGHT_KEY@, ValueView::U32(h))));
    }
}

/// Extracts the metadata from the body of a `moov` box.
pub fn moov_metadata(d: &[u8]) -> (r: Result<Vec<(String, EntryValue)>, MetadataError>)
    ensures
        r matches Ok(v) ==> spec_moov_metadata(d@) == Ok::<Entries, MetadataError>(
            entries_view(v@),
        ),
        r matches Err(e) ==> spec_moov_metadata(d@) == Err::<Entries, MetadataError>(e),
{
    let mut entries = match parse_moov_body(d) {
        Ok(Some(v)) => v,
        Ok(None) => Vec::new(),
        Err(_) => {
            return Err(MetadataError::InvalidMoov);
        },
    };
    assert(entries_view(Seq::<(String, EntryValue)>::empty()) =~= Seq::empty());
    add_location(d, &mut entries);
    convert_creation_time(&mut entries);
    match add_mvhd(d, &mut entries) {
        Ok(()) => {},
        Err(()) => {
            return Err(MetadataError::InvalidMoov);
        },
    }
    add_size(d, &mut entries);
    Ok(entries)
}

} // verus!

verus! {

/// The metadata of a whole MOV/MP4 file held in `f`.
pub open spec fn spec_mov_metadata(f: Seq<u8>) -> Result<Entries, MetadataError> {
    match spec_moov_scan(f, 0) {
        Ok((a, b)) => spec_moov_metadata(f.subrange(a as int, b as int)),
        Err(Error::ParseFailed) => Err(MetadataError::MoovNotFound),
        Err(_) => Err(MetadataError::SourceExhausted),
    }
}

/// The outcome of a scan over a whole stream: a request for more bytes, or
/// for a skip, means the stream ended too early.
pub open spec fn spec_scan_failure(e: Error) -> MetadataError {
    match e {
        Error::ParseFailed => MetadataError::MoovNotFound,
        _ => MetadataError::SourceExhausted,
    }
}

/// Extracts the metadata of a MOV/MP4 file held in memory, as key-value
/// pairs in the order they are found.
pub fn parse_mov_metadata(f: &[u8]) -> (r: Result<Vec<(String, EntryValue)>, MetadataError>)
    ensures
        r matches Ok(v) ==> spec_mov_metadata(f@) == Ok::<Entries, MetadataError>(
            entries_view(v@),
        ),
        r matches Err(e) ==> spec_mov_metadata(f@) == Err::<Entries, MetadataError>(e),
{
    match extract_moov_body_from_buf(f) {
        Ok((a, b)) => moov_metadata(&f[a..b]),
        Err(e) => Err(scan_failure(e)),
    }
}

/// Maps what a scan over a whole stream reported to the caller's error.
pub fn scan_failure(e: Error) -> (r: MetadataError)
    ensures
        r == spec_scan_failure(e),
{
    match e {
        Error::ParseFailed => MetadataError::MoovNotFound,
        _ => MetadataError::SourceExhausted,
    }
}

/// Parsing is a function of the bytes: the same bytes give the same
/// entries in the same order, however often they are parsed.
pub proof fn lemma_parse_deterministic(f: Seq<u8>, g: Seq<u8>)
    requires
        f == g,
    ensures
        spec_mov_metadata(f) == spec_mov_metadata(g),
        spec_moov_metadata(f) == spec_moov_metadata(g),
{
}

/// What `str::trim` leaves of a text: it removes leading and trailing
/// Unicode white space.
pub uninterp spec fn trimmed(s: Seq<char>) -> Seq<char>;

/// Relies on `str::trim`: the result depends on the text alone.
#[verifier::external_body]
fn trim(s: &str) -> (r: &str)
    ensures
        r@ == trimmed(s@),
{
    s.trim()
}

pub open spec fn is_sign(c: char) -> bool {
    c == '+' || c == '-'
}

pub open spec fn is_digit(c: char) -> bool {
    '0' <= c <= '9'
}

/// Whether `s` ends in a UTC offset `±hh` (`Some(false)`) or `±hhmm`
/// (`Some(true)`).
pub open spec fn spec_tz_suffix(s: Seq<char>) -> Option<bool> {
    let n = s.len();
    if n >= 5 && is_sign(s[n - 5]) && is_digit(s[n - 4]) && is_digit(s[n - 3]) && is_digit(s[n - 2])
        && is_digit(s[n - 1]) {
        Some(true)
    } else if n >= 3 && is_sign(s[n - 3]) && is_digit(s[n - 2]) && is_digit(s[n - 1]) {
        Some(false)
    } else {
        None
    }
}

/// Relies on `regex::Regex::new` and `regex::Regex::captures` with the
/// pattern `([+-][0-9][0-9])([0-9][0-9])?$`: `$` matches only at the end of
/// the text, and the leftmost match is the one reported, so a four-digit
/// offset is preferred; the result tells whether the second group matched.
#[verifier::external_body]
fn tz_suffix(s: &str) -> (r: Option<bool>)
    ensures
        r == spec_tz_suffix(s@),
{
    regex::Regex::new(r"([+-][0-9][0-9])([0-9][0-9])?$").ok().and_then(|re| re.captures(s)).map(
        |c| c.get(2).is_some(),
    )
}

/// The text with an ISO 8601 offset (`+08`, `+0800`) at its end rewritten
/// in RFC 3339 form (`+08:00`). Text without such an offset is returned
/// unchanged, untrimmed.
pub open spec fn spec_tz_iso_8601_to_rfc3339(s: Seq<char>) -> Seq<char> {
    let t = trimmed(s);
    let n = t.len() as int;
    match spec_tz_suffix(t) {
        Some(true) => t.subrange(0, n - 2) + seq![':'] + t.subrange(n - 2, n),
        Some(false) => t + seq![':', '0', '0'],
        None => s,
    }
}

/// Rewrites an ISO 8601 UTC offset at the end of `s` in RFC 3339 form:
/// `2023-11-02T19:58:34+08` and `2023-11-02T19:58:34+0800` both become
/// `2023-11-02T19:58:34+08:00`.
pub fn tz_iso_8601_to_rfc3339(s: String) -> (r: String)
    ensures
        r@ == spec_tz_iso_8601_to_rfc3339(s@),
{
    let t = trim(s.as_str());
    match tz_suffix(t) {
        Some(true) => {
            let n = t.unicode_len();
            let mut r = String::from_str(t.substring_char(0, n - 2));
            r.append(":");
            r.append(t.substring_char(n - 2, n));
            proof {
                reveal_strlit(":");
            }
            r
        },
        Some(false) => {
            let mut r = String::from_str(t);
            r.append(":00");
            proof {
                reveal_strlit(":00");
            }
            assert(r@ =~= spec_tz_iso_8601_to_rfc3339(s@));
            r
        },
        None => s,
    }
}

} // verus!

verus! {

proof fn lemma_header_of_prefix(f: Seq<u8>, g: Seq<u8>)
    requires
        8 <= f.len() <= g.len(),
        f =~= g.subrange(0, f.len() as int),
        spec_be_u32(g, 0) != 0,
        spec_be_u32(g, 0) == 1 ==> f.len() >= 16,
    ensures
        spec_header(f) == spec_header(g),
{
    assert(spec_be_u32(f, 0) == spec_be_u32(g, 0));
    assert(spec_be_u32(f, 4) == spec_be_u32(g, 4));
    if spec_be_u32(g, 0) == 1 {
        assert(spec_be_u64(f, 8) == spec_be_u64(g, 8));
    }
}

/// A stream cut short inside its `moov` box never looks malformed: from
/// any box boundary `i` that the cut leaves in place, scanning what is
/// left asks for more bytes or for a skip, so a caller whose source has
/// run dry reports exhaustion, not a parse failure.
pub proof fn lemma_truncated_moov_is_exhaustion(g: Seq<u8>, f: Seq<u8>, i: int)
    requires
        g.len() <= usize::MAX,
        0 <= i <= f.len() <= g.len(),
        f =~= g.subrange(0, f.len() as int),
        spec_moov_scan(g, i) is Ok,
        f.len() < spec_moov_scan(g, i)->Ok_0.1,
    ensures
        spec_moov_scan(f, i) is Err,
        spec_moov_scan(f, i) != Err::<(usize, usize), Error>(Error::ParseFailed),
    decreases g.len() - i,
{
    let fw = f.subrange(i, f.len() as int);
    let gw = g.subrange(i, g.len() as int);
    lemma_header_fits(gw);
    if fw.len() >= 8 {
        assert(fw =~= gw.subrange(0, fw.len() as int));
        if spec_be_u32(gw, 0) == 1 && fw.len() < 16 {
            assert(fw[0] == gw[0] && fw[1] == gw[1] && fw[2] == gw[2] && fw[3] == gw[3]);
            assert(spec_be_u32(fw, 0) == spec_be_u32(gw, 0));
        } else if spec_be_u32(gw, 0) != 0 {
            lemma_header_of_prefix(fw, gw);
            if let HeaderStep::Header(h) = spec_header(gw) {
                if h.box_type != MOOV && f.len() - i - h.header_size >= h.box_size - h.header_size {
                    lemma_truncated_moov_is_exhaustion(g, f, i + h.box_size);
                }
            }
        }
    }
}

} // verus!
