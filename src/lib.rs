//! Metadata extraction from ISO base media files (MP4, MOV, 3GP, HEIF).
//!
//! The library walks the length-prefixed boxes of a container, locates the
//! `moov` box through an incremental loader that asks its caller for bytes
//! or for a skip, and assembles the metadata found inside it. It also reads
//! TIFF/Exif directories entry by entry, and the element headers of EBML
//! (Matroska) streams.
pub use bbox::{find_box, BoxHeader, BoxSpan, Lookup};
pub use ebml::{
    first_element, parse_element, parse_vint, ElementHeader, ElementLookup, ElementSpan,
    ElementStep, VintStep,
};
pub use exif::{
    entry, entry_count, find_tag, next_ifd, parse_gps_info, parse_tiff_header, resolve_value,
    sub_ifd, ByteOrder, EntryError, ExifIter, ExifValue, GpsInfo, Ifd, IfdEntry, LatLng,
    URational,
};
pub use loader::{LoadStep, MoovLoader};
pub use mov::{
    extract_moov_body_from_buf, moov_metadata, parse_moov_body, parse_mov_metadata,
    tz_iso_8601_to_rfc3339, Error, MetadataError,
};
pub use values::{EntryValue, Timestamp};
pub use video::{parse_video_info, VideoInfo, VideoInfoTag};

pub mod bbox;
pub mod ebml;
pub mod exif;
pub mod mov;
pub mod loader;
pub mod meta;
pub mod text;
pub mod track;
pub mod values;
pub mod video;
