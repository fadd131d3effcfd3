//! Typed metadata values.
use vstd::prelude::*;
use vstd::slice::slice_to_vec;

verus! {

/// An instant with the UTC offset it was written in.
#[derive(Clone, Copy, Debug, PartialEq, Eq, Structural)]
pub struct Timestamp {
    /// Seconds since 1970-01-01T00:00:00 UTC.
    pub secs: i64,
    /// Sub-second part, in nanoseconds.
    pub nanos: u32,
    /// Local time minus UTC, in seconds.
    pub offset: i32,
}

/// A metadata value. Floating-point values are held as their IEEE 754 bits.
#[derive(Clone, Debug, PartialEq, Eq)]
pub enum EntryValue {
    Text(String),
    U8(u8),
    U32(u32),
    U64(u64),
    I64(i64),
    F32Bits(u32),
    F64Bits(u64),
    Time(Timestamp),
    Undefined(Vec<u8>),
}

/// What an [`EntryValue`] holds, with text and bytes as sequences.
pub enum ValueView {
    Text(Seq<char>),
    U8(u8),
    U32(u32),
    U64(u64),
    I64(i64),
    F32Bits(u32),
    F64Bits(u64),
    Time(Timestamp),
    Undefined(Seq<u8>),
}

impl View for EntryValue {
    type V = ValueView;

    open spec fn view(&self) -> ValueView {
        match self {
            EntryValue::Text(s) => ValueView::Text(s@),
            EntryValue::U8(v) => ValueView::U8(*v),
            EntryValue::U32(v) => ValueView::U32(*v),
            EntryValue::U64(v) => ValueView::U64(*v),
            EntryValue::I64(v) => ValueView::I64(*v),
            EntryValue::F32Bits(v) => ValueView::F32Bits(*v),
            EntryValue::F64Bits(v) => ValueView::F64Bits(*v),
            EntryValue::Time(t) => ValueView::Time(*t),
            EntryValue::Undefined(b) => ValueView::Undefined(b@),
        }
    }
}

impl EntryValue {
    /// A copy of the value.
    pub fn duplicate(&self) -> (r: EntryValue)
        ensures
            r@ == self@,
    {
        match self {
            EntryValue::Text(s) => EntryValue::Text(s.clone()),
            EntryValue::U8(v) => EntryValue::U8(*v),
            EntryValue::U32(v) => EntryValue::U32(*v),
            EntryValue::U64(v) => EntryValue::U64(*v),
            EntryValue::I64(v) => EntryValue::I64(*v),
            EntryValue::F32Bits(v) => EntryValue::F32Bits(*v),
            EntryValue::F64Bits(v) => EntryValue::F64Bits(*v),
            EntryValue::Time(t) => EntryValue::Time(*t),
            EntryValue::Undefined(b) => EntryValue::Undefined(slice_to_vec(b.as_slice())),
        }
    }
}

} // verus!
