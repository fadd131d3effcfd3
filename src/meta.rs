//! The QuickTime metadata boxes: `keys` names the items, `ilst` holds their
//! values in the same order.
use vstd::prelude::*;
use vstd::slice::slice_to_vec;
use vstd::utf8::{decode_utf8, valid_utf8};

use crate::bbox::{
    lemma_header_fits, parse_header, read_be_u16, read_be_u32, read_be_u64, spec_be_u16,
    spec_be_u32, spec_be_u64, spec_header, HeaderStep,
};
use crate::text::utf8_string;
use crate::values::{EntryValue, ValueView};

verus! {

/// Type tag `data`.
pub const DATA: u32 = 0x6461_7461;

/// Well-known type codes of an `ilst` data box.
pub const TYPE_UTF8: u32 = 1;
pub const TYPE_BE_SIGNED: u32 = 21;
pub const TYPE_BE_UNSIGNED: u32 = 22;
pub const TYPE_BE_FLOAT32: u32 = 23;
pub const TYPE_BE_FLOAT64: u32 = 24;

/// The `count` key names that follow one another from `i` to `hi`: each is
/// a 4-byte size (covering the whole entry), a 4-byte namespace and the
/// name in UTF-8.
pub open spec fn spec_key_names(d: Seq<u8>, i: int, hi: int, count: nat) -> Option<Seq<Seq<char>>>
    decreases count,
{
    if count == 0 {
        Some(Seq::empty())
    } else if !(0 <= i && i + 8 <= hi <= d.len()) {
        None
    } else {
        let size = spec_be_u32(d, i);
        if size < 8 || i + size > hi || !valid_utf8(d.subrange(i + 8, i + size)) {
            None
        } else {
            match spec_key_names(d, i + size, hi, (count - 1) as nat) {
                Some(rest) => Some(seq![decode_utf8(d.subrange(i + 8, i + size))] + rest),
                None => None,
            }
        }
    }
}

/// The names listed by the `keys` box whose body spans `lo..hi`: a 4-byte
/// version and flags, a 4-byte count, then the entries.
pub open spec fn spec_keys(d: Seq<u8>, lo: int, hi: int) -> Option<Seq<Seq<char>>> {
    if !(0 <= lo && lo + 8 <= hi <= d.len()) {
        None
    } else {
        spec_key_names(d, lo + 8, hi, spec_be_u32(d, lo + 4) as nat)
    }
}

pub open spec fn strings_view(v: Seq<String>) -> Seq<Seq<char>> {
    v.map_values(|s: String| s@)
}

/// Parses the body of a `keys` box.
pub fn parse_keys(d: &[u8], lo: usize, hi: usize) -> (r: Option<Vec<String>>)
    requires
        lo <= hi <= d@.len(),
    ensures
        r matches Some(v) ==> spec_keys(d@, lo as int, hi as int) == Some(strings_view(v@)),
        r is None ==> spec_keys(d@, lo as int, hi as int) is None,
{
    if hi - lo < 8 {
        return None;
    }
    let count = read_be_u32(d, lo + 4);
    let mut names: Vec<String> = Vec::new();
    let mut i = lo + 8;
    let mut k: u32 = 0;
    while k < count
        invariant
            lo + 8 <= i <= hi <= d@.len(),
            k <= count,
            spec_keys(d@, lo as int, hi as int) == match spec_key_names(
                d@,
                i as int,
                hi as int,
                (count - k) as nat,
            ) {
                Some(rest) => Some(strings_view(names@) + rest),
                None => None,
            },
        decreases count - k,
    {
        if hi - i < 8 {
            return None;
        }
        let size = read_be_u32(d, i);
        if size < 8 || size as usize > hi - i {
            return None;
        }
        let end = i + size as usize;
        match utf8_string(&d[i + 8..end]) {
            Some(name) => {
                let ghost before = names@;
                names.push(name);
                proof {
                    assert(strings_view(names@) =~= strings_view(before) + seq![name@]);
                    let tail = spec_key_names(d@, end as int, hi as int, (count - k - 1) as nat);
                    if let Some(rest) = tail {
                        assert(strings_view(before) + (seq![name@] + rest) =~= strings_view(names@)
                            + rest);
                    }
                }
                i = end;
                k = k + 1;
            },
            None => {
                return None;
            },
        }
    }
    proof {
        assert(strings_view(names@) + Seq::<Seq<char>>::empty() =~= strings_view(names@));
    }
    Some(names)
}

/// The value held by `b`, read according to the type code of its data box.
pub open spec fn spec_value(code: u32, b: Seq<u8>) -> ValueView {
    if code == TYPE_UTF8 && valid_utf8(b) {
        ValueView::Text(decode_utf8(b))
    } else if code == TYPE_BE_SIGNED && b.len() == 1 {
        ValueView::I64(b[0] as i8 as i64)
    } else if code == TYPE_BE_SIGNED && b.len() == 2 {
        ValueView::I64(spec_be_u16(b, 0) as i16 as i64)
    } else if code == TYPE_BE_SIGNED && b.len() == 4 {
        ValueView::I64(spec_be_u32(b, 0) as i32 as i64)
    } else if code == TYPE_BE_SIGNED && b.len() == 8 {
        ValueView::I64(spec_be_u64(b, 0) as i64)
    } else if code == TYPE_BE_UNSIGNED && b.len() == 1 {
        ValueView::U8(b[0])
    } else if code == TYPE_BE_UNSIGNED && b.len() == 2 {
        ValueView::U32(spec_be_u16(b, 0) as u32)
    } else if code == TYPE_BE_UNSIGNED && b.len() == 4 {
        ValueView::U32(spec_be_u32(b, 0))
    } else if code == TYPE_BE_UNSIGNED && b.len() == 8 {
        ValueView::U64(spec_be_u64(b, 0))
    } else if code == TYPE_BE_FLOAT32 && b.len() == 4 {
        ValueView::F32Bits(spec_be_u32(b, 0))
    } else if code == TYPE_BE_FLOAT64 && b.len() == 8 {
        ValueView::F64Bits(spec_be_u64(b, 0))
    } else {
        ValueView::Undefined(b)
    }
}

/// Reads a value of type `code` from `d[lo..hi]`.
pub fn decode_value(d: &[u8], code: u32, lo: usize, hi: usize) -> (r: EntryValue)
    requires
        lo <= hi <= d@.len(),
    ensures
        r@ == spec_value(code, d@.subrange(lo as int, hi as int)),
{
    let b = &d[lo..hi];
    let n = b.len();
    if code == TYPE_UTF8 {
        if let Some(s) = utf8_string(b) {
            return EntryValue::Text(s);
        }
    }
    if code == TYPE_BE_SIGNED && n == 1 {
        EntryValue::I64(b[0] as i8 as i64)
    } else if code == TYPE_BE_SIGNED && n == 2 {
        EntryValue::I64(read_be_u16(b, 0) as i16 as i64)
    } else if code == TYPE_BE_SIGNED && n == 4 {
        EntryValue::I64(read_be_u32(b, 0) as i32 as i64)
    } else if code == TYPE_BE_SIGNED && n == 8 {
        EntryValue::I64(read_be_u64(b, 0) as i64)
    } else if code == TYPE_BE_UNSIGNED && n == 1 {
        EntryValue::U8(b[0])
    } else if code == TYPE_BE_UNSIGNED && n == 2 {
        EntryValue::U32(read_be_u16(b, 0) as u32)
    } else if code == TYPE_BE_UNSIGNED && n == 4 {
        EntryValue::U32(read_be_u32(b, 0))
    } else if code == TYPE_BE_UNSIGNED && n == 8 {
        EntryValue::U64(read_be_u64(b, 0))
    } else if code == TYPE_BE_FLOAT32 && n == 4 {
        EntryValue::F32Bits(read_be_u32(b, 0))
    } else if code == TYPE_BE_FLOAT64 && n == 8 {
        EntryValue::F64Bits(read_be_u64(b, 0))
    } else {
        EntryValue::Undefined(slice_to_vec(b))
    }
}

/// The value of the `ilst` item whose body spans `lo..hi`: it starts with a
/// `data` box of 4-byte size, the tag, a 1-byte type set with a 3-byte type
/// code, a 4-byte locale, and the value.
pub open spec fn spec_item_value(d: Seq<u8>, lo: int, hi: int) -> Option<ValueView> {
    if !(0 <= lo && lo + 16 <= hi <= d.len()) {
        None
    } else {
        let size = spec_be_u32(d, lo);
        if spec_be_u32(d, lo + 4) != DATA || size < 16 || lo + size > hi {
            None
        } else {
            Some(spec_value(spec_be_u32(d, lo + 8) & 0x00ff_ffffu32, d.subrange(lo + 16, lo + size)))
        }
    }
}

/// The values of the `ilst` items that follow one another from `i` to `hi`.
pub open spec fn spec_items(d: Seq<u8>, i: int, hi: int) -> Option<Seq<ValueView>>
    decreases hi - i via items_decreases
{
    if !(0 <= i <= hi <= d.len() && hi <= usize::MAX) {
        None
    } else if i == hi {
        Some(Seq::empty())
    } else {
        match spec_header(d.subrange(i, hi)) {
            HeaderStep::Header(h) => {
                if h.box_size > hi - i {
                    None
                } else {
                    match spec_item_value(d, i + h.header_size, i + h.box_size) {
                        Some(v) => match spec_items(d, i + h.box_size, hi) {
                            Some(rest) => Some(seq![v] + rest),
                            None => None,
                        },
                        None => None,
                    }
                }
            },
            _ => None,
        }
    }
}

#[via_fn]
proof fn items_decreases(d: Seq<u8>, i: int, hi: int) {
    if 0 <= i < hi <= d.len() && hi <= usize::MAX {
        lemma_header_fits(d.subrange(i, hi));
    }
}

pub open spec fn values_view(v: Seq<EntryValue>) -> Seq<ValueView> {
    v.map_values(|x: EntryValue| x@)
}

/// Reads the value of one `ilst` item.
fn parse_item(d: &[u8], lo: usize, hi: usize) -> (r: Option<EntryValue>)
    requires
        lo <= hi <= d@.len(),
    ensures
        r matches Some(v) ==> spec_item_value(d@, lo as int, hi as int) == Some(v@),
        r is None ==> spec_item_value(d@, lo as int, hi as int) is None,
{
    if hi - lo < 16 {
        return None;
    }
    let size = read_be_u32(d, lo);
    if read_be_u32(d, lo + 4) != DATA || size < 16 || size as usize > hi - lo {
        return None;
    }
    let code = read_be_u32(d, lo + 8) & 0x00ff_ffffu32;
    Some(decode_value(d, code, lo + 16, lo + size as usize))
}

/// Parses the body of an `ilst` box, spanning `lo..hi`, into its values.
pub fn parse_ilst(d: &[u8], lo: usize, hi: usize) -> (r: Option<Vec<EntryValue>>)
    requires
        lo <= hi <= d@.len(),
    ensures
        r matches Some(v) ==> spec_items(d@, lo as int, hi as int) == Some(values_view(v@)),
        r is None ==> spec_items(d@, lo as int, hi as int) is None,
{
    let _n = d.len();
    let mut values: Vec<EntryValue> = Vec::new();
    let mut i = lo;
    while i < hi
        invariant
            lo <= i <= hi <= d@.len() <= usize::MAX,
            spec_items(d@, lo as int, hi as int) == match spec_items(d@, i as int, hi as int) {
                Some(rest) => Some(values_view(values@) + rest),
                None => None,
            },
        decreases hi - i,
    {
        proof {
            lemma_header_fits(d@.subrange(i as int, hi as int));
        }
        match parse_header(d, i, hi) {
            HeaderStep::Header(h) => {
                if h.box_size > (hi - i) as u64 {
                    return None;
                }
                let end = i + h.box_size as usize;
                match parse_item(d, i + h.header_size as usize, end) {
                    Some(v) => {
                        let ghost before = values@;
                        values.push(v);
                        proof {
                            assert(values_view(values@) =~= values_view(before) + seq![v@]);
                            if let Some(rest) = spec_items(d@, end as int, hi as int) {
                                assert(values_view(before) + (seq![v@] + rest) =~= values_view(
                                    values@,
                                ) + rest);
                            }
                        }
                        i = end;
                    },
                    None => {
                        return None;
                    },
                }
            },
            _ => {
                return None;
            },
        }
    }
    proof {
        assert(values_view(values@) + Seq::<ValueView>::empty() =~= values_view(values@));
    }
    Some(values)
}

} // verus!
