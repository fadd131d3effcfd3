use nom_exif::{
    entry, entry_count, find_tag, next_ifd, parse_gps_info, parse_tiff_header, resolve_value,
    sub_ifd, ByteOrder, EntryError, ExifIter, ExifValue, GpsInfo, Ifd, IfdEntry, LatLng,
    URational,
};

fn le_entry(tag: u16, ty: u16, count: u32, field: [u8; 4]) -> Vec<u8> {
    let mut v = tag.to_le_bytes().to_vec();
    v.extend_from_slice(&ty.to_le_bytes());
    v.extend_from_slice(&count.to_le_bytes());
    v.extend_from_slice(&field);
    v
}

/// A little-endian TIFF stream: IFD0 at 8 with Make (out of line),
/// Orientation (inline), a GPS pointer and a damaged entry; a GPS IFD with a
/// latitude reference and a latitude of three rationals.
fn sample() -> Vec<u8> {
    let ifd0 = 8u32;
    let ifd0_len = 2 + 12 * 4 + 4;
    let make_at = ifd0 + ifd0_len;
    let gps_at = make_at + 6;
    let gps_len = 2 + 12 * 2 + 4;
    let lat_at = gps_at + gps_len;
    let mut d = b"II".to_vec();
    d.extend_from_slice(&42u16.to_le_bytes());
    d.extend_from_slice(&ifd0.to_le_bytes());
    d.extend_from_slice(&4u16.to_le_bytes());
    d.extend(le_entry(0x010f, 2, 6, make_at.to_le_bytes()));
    d.extend(le_entry(0x0112, 3, 1, [1, 0, 0, 0]));
    d.extend(le_entry(0x8825, 4, 1, gps_at.to_le_bytes()));
    d.extend(le_entry(0x0110, 2, 50, 10_000u32.to_le_bytes()));
    d.extend_from_slice(&0u32.to_le_bytes());
    d.extend_from_slice(b"Apple\0");
    d.extend_from_slice(&2u16.to_le_bytes());
    d.extend(le_entry(0x0001, 2, 2, [b'N', 0, 0, 0]));
    d.extend(le_entry(0x0002, 5, 3, lat_at.to_le_bytes()));
    d.extend_from_slice(&0u32.to_le_bytes());
    for (num, den) in [(43u32, 1u32), (17, 1), (2446, 100)] {
        d.extend_from_slice(&num.to_le_bytes());
        d.extend_from_slice(&den.to_le_bytes());
    }
    d
}

fn resolve(d: &[u8], ifd: Ifd, k: u16) -> Result<ExifValue, EntryError> {
    resolve_value(d, entry(d, ifd, k).unwrap())
}

#[test]
fn tiff_header_byte_orders() {
    assert_eq!(parse_tiff_header(&sample()), Some((ByteOrder::Little, 8)));
    assert_eq!(
        parse_tiff_header(&[b'M', b'M', 0, 42, 0, 0, 0, 8]),
        Some((ByteOrder::Big, 8))
    );
    assert_eq!(parse_tiff_header(&[b'M', b'M', 42, 0, 0, 0, 0, 8]), None);
    assert_eq!(parse_tiff_header(b"II*"), None);
}

#[test]
fn entries_resolve_inline_and_out_of_line() {
    let d = sample();
    let ifd = Ifd { order: ByteOrder::Little, offset: 8 };
    assert_eq!(entry_count(&d, ifd), Some(4));
    assert_eq!(
        entry(&d, ifd, 1),
        Some(IfdEntry { tag: 0x0112, value_type: 3, count: 1, value_or_offset: 1, field_pos: 30 })
    );
    assert_eq!(resolve(&d, ifd, 0).unwrap().bytes, b"Apple\0".to_vec());
    assert_eq!(resolve(&d, ifd, 1).unwrap().bytes, vec![1, 0]);
    assert_eq!(next_ifd(&d, ifd), Some(0));
    assert_eq!(entry(&d, ifd, 4), None);
}

#[test]
fn out_of_order_and_subset_resolution_agree_with_a_full_pass() {
    let d = sample();
    let ifd = Ifd { order: ByteOrder::Little, offset: 8 };
    let in_order: Vec<_> = (0..4).map(|k| resolve(&d, ifd, k)).collect();
    let backwards: Vec<_> = (0..4).rev().map(|k| resolve(&d, ifd, k)).collect();
    let reversed: Vec<_> = backwards.into_iter().rev().collect();
    assert_eq!(in_order, reversed);
    assert_eq!(resolve(&d, ifd, 2), in_order[2]);
}

#[test]
fn damaged_entry_does_not_stop_the_others() {
    let d = sample();
    let ifd = Ifd { order: ByteOrder::Little, offset: 8 };
    let mut it = ExifIter::new(ifd);
    let mut results = Vec::new();
    while let Some(e) = it.next_entry(&d) {
        results.push(resolve_value(&d, e.unwrap()));
    }
    assert_eq!(results.len(), 4);
    assert_eq!(results[3], Err(EntryError::OutOfBounds));
    assert!(results[..3].iter().all(|r| r.is_ok()));

    let mut bad = d.clone();
    bad[10 + 2] = 99; // type code of entry 0
    assert_eq!(resolve(&bad, ifd, 0), Err(EntryError::UnknownType(99)));
    assert_eq!(resolve(&bad, ifd, 1), resolve(&d, ifd, 1));
    assert_eq!(resolve(&bad, ifd, 2), resolve(&d, ifd, 2));
}

#[test]
fn gps_sub_ifd() {
    let d = sample();
    let ifd = Ifd { order: ByteOrder::Little, offset: 8 };
    let gps = sub_ifd(entry(&d, ifd, 2).unwrap(), ByteOrder::Little).unwrap();
    assert_eq!(sub_ifd(entry(&d, ifd, 0).unwrap(), ByteOrder::Little), None);
    assert_eq!(entry_count(&d, gps), Some(2));
    assert_eq!(resolve(&d, gps, 0).unwrap().bytes, vec![b'N', 0]);
    let lat = resolve(&d, gps, 1).unwrap();
    assert_eq!(lat.count, 3);
    let parts: Vec<u32> = lat
        .bytes
        .chunks(4)
        .map(|c| u32::from_le_bytes([c[0], c[1], c[2], c[3]]))
        .collect();
    assert_eq!(parts, vec![43, 1, 17, 1, 2446, 100]);
}

fn be_entry(tag: u16, ty: u16, count: u32, field: [u8; 4]) -> Vec<u8> {
    let mut v = tag.to_be_bytes().to_vec();
    v.extend_from_slice(&ty.to_be_bytes());
    v.extend_from_slice(&count.to_be_bytes());
    v.extend_from_slice(&field);
    v
}

fn r(num: u32, den: u32) -> URational {
    URational { num, den }
}

/// A big-endian GPS IFD at offset 8 with both references, both coordinates
/// and the altitude.
fn gps_sample() -> Vec<u8> {
    let ifd_len: u32 = 2 + 12 * 6 + 4;
    let lat_at = 8 + ifd_len;
    let lng_at = lat_at + 24;
    let alt_at = lng_at + 24;
    let mut d = b"MM".to_vec();
    d.extend_from_slice(&42u16.to_be_bytes());
    d.extend_from_slice(&8u32.to_be_bytes());
    d.extend_from_slice(&6u16.to_be_bytes());
    d.extend(be_entry(1, 2, 2, [b'N', 0, 0, 0]));
    d.extend(be_entry(2, 5, 3, lat_at.to_be_bytes()));
    d.extend(be_entry(3, 2, 2, [b'E', 0, 0, 0]));
    d.extend(be_entry(4, 5, 3, lng_at.to_be_bytes()));
    d.extend(be_entry(5, 1, 1, [0, 0, 0, 0]));
    d.extend(be_entry(6, 5, 1, alt_at.to_be_bytes()));
    d.extend_from_slice(&0u32.to_be_bytes());
    for (num, den) in [(43u32, 1u32), (17, 1), (2446, 100), (84, 1), (13, 1), (3767, 100), (1_595_950, 1000)] {
        d.extend_from_slice(&num.to_be_bytes());
        d.extend_from_slice(&den.to_be_bytes());
    }
    d
}

#[test]
fn gps_info_from_a_gps_ifd() {
    let d = gps_sample();
    let (order, offset) = parse_tiff_header(&d).unwrap();
    let gps = parse_gps_info(&d, Ifd { order, offset: offset as usize }).unwrap();
    assert_eq!(
        gps,
        GpsInfo {
            latitude_ref: 'N',
            latitude: LatLng { degrees: r(43, 1), minutes: r(17, 1), seconds: r(2446, 100) },
            longitude_ref: 'E',
            longitude: LatLng { degrees: r(84, 1), minutes: r(13, 1), seconds: r(3767, 100) },
            altitude_ref: 0,
            altitude: Some(r(1_595_950, 1000)),
        }
    );
}

#[test]
fn gps_info_needs_both_coordinates() {
    let mut d = gps_sample();
    // Entry 3 (longitude) gets tag 0x99 and can no longer be found.
    let p = 8 + 2 + 12 * 3;
    d[p] = 0;
    d[p + 1] = 0x99;
    let ifd = Ifd { order: ByteOrder::Big, offset: 8 };
    assert_eq!(find_tag(&d, ifd, 4), None);
    assert_eq!(find_tag(&d, ifd, 0x99).map(|e| e.count), Some(3));
    assert_eq!(parse_gps_info(&d, ifd), None);
}
