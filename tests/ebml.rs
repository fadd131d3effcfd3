use nom_exif::{
    first_element, parse_element, parse_vint, ElementHeader, ElementLookup, ElementSpan,
    ElementStep, VintStep,
};

#[test]
fn vints() {
    assert_eq!(parse_vint(&[0x81], 0), VintStep::Vint { len: 1, raw: 0x81, value: 1 });
    assert_eq!(parse_vint(&[0x40, 0x02], 0), VintStep::Vint { len: 2, raw: 0x4002, value: 2 });
    assert_eq!(
        parse_vint(&[0x1a, 0x45, 0xdf, 0xa3], 0),
        VintStep::Vint { len: 4, raw: 0x1a45_dfa3, value: 0x0a45_dfa3 }
    );
    assert_eq!(
        parse_vint(&[0x01, 0, 0, 0, 0, 0, 0, 5], 0),
        VintStep::Vint { len: 8, raw: 0x0100_0000_0000_0005, value: 5 }
    );
    assert_eq!(parse_vint(&[0x00], 0), VintStep::Invalid);
    assert_eq!(parse_vint(&[0x20, 1], 0), VintStep::Incomplete(1));
    assert_eq!(parse_vint(&[], 0), VintStep::Incomplete(1));
}

#[test]
fn element_headers() {
    assert_eq!(
        parse_element(&[0x1a, 0x45, 0xdf, 0xa3, 0x84], 0),
        ElementStep::Header(ElementHeader {
            id: 0x1a45_dfa3,
            body_size: 4,
            header_size: 5,
            unknown_size: false,
        })
    );
    assert_eq!(
        parse_element(&[0x18, 0x53, 0x80, 0x67, 0xff], 0),
        ElementStep::Header(ElementHeader {
            id: 0x1853_8067,
            body_size: 0x7f,
            header_size: 5,
            unknown_size: true,
        })
    );
    assert_eq!(parse_element(&[0x08, 0, 0, 0, 0, 0x81], 0), ElementStep::Malformed);
}

#[test]
fn element_lookup_skips_siblings_and_handles_unknown_size() {
    let mut d = vec![0x1a, 0x45, 0xdf, 0xa3, 0x84, 1, 2, 3, 4];
    d.extend_from_slice(&[0x18, 0x53, 0x80, 0x67, 0x01, 0xff, 0xff, 0xff, 0xff, 0xff, 0xff, 0xff]);
    d.extend_from_slice(&[0xec, 0x82, 0, 0]);
    assert_eq!(
        first_element(&d, 0x1853_8067, 0, d.len()),
        ElementLookup::Found(ElementSpan { id: 0x1853_8067, start: 9, body_start: 21, end: 25 })
    );
    assert_eq!(first_element(&d, 0xec, 0, d.len()), ElementLookup::Absent);
    assert_eq!(first_element(&d, 0xec, 21, d.len()),
        ElementLookup::Found(ElementSpan { id: 0xec, start: 21, body_start: 23, end: 25 }));
    assert_eq!(first_element(&d[..7], 0xec, 0, 7), ElementLookup::Malformed);
}
