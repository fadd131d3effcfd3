use nom_exif::{
    extract_moov_body_from_buf, find_box, moov_metadata, parse_moov_body, parse_mov_metadata,
    parse_video_info, tz_iso_8601_to_rfc3339, EntryValue, Error, LoadStep, Lookup,
    MetadataError, MoovLoader, Timestamp, VideoInfoTag,
};

fn bx(ty: &[u8; 4], body: &[u8]) -> Vec<u8> {
    let mut v = ((body.len() + 8) as u32).to_be_bytes().to_vec();
    v.extend_from_slice(ty);
    v.extend_from_slice(body);
    v
}

fn cat(parts: &[Vec<u8>]) -> Vec<u8> {
    parts.concat()
}

fn keys_box(names: &[&str]) -> Vec<u8> {
    let mut body = vec![0, 0, 0, 0];
    body.extend_from_slice(&(names.len() as u32).to_be_bytes());
    for n in names {
        body.extend_from_slice(&((n.len() + 8) as u32).to_be_bytes());
        body.extend_from_slice(b"mdta");
        body.extend_from_slice(n.as_bytes());
    }
    bx(b"keys", &body)
}

fn item(index: u32, code: u32, value: &[u8]) -> Vec<u8> {
    let mut data = code.to_be_bytes().to_vec();
    data.extend_from_slice(&[0, 0, 0, 0]);
    data.extend_from_slice(value);
    bx(&index.to_be_bytes(), &bx(b"data", &data))
}

fn mvhd_v0(creation: u32, timescale: u32, duration: u32) -> Vec<u8> {
    let mut body = vec![0, 0, 0, 0];
    body.extend_from_slice(&creation.to_be_bytes());
    body.extend_from_slice(&creation.to_be_bytes());
    body.extend_from_slice(&timescale.to_be_bytes());
    body.extend_from_slice(&duration.to_be_bytes());
    body.extend_from_slice(&[0u8; 80]);
    bx(b"mvhd", &body)
}

fn trak(kind: &[u8; 4], width: u32, height: u32) -> Vec<u8> {
    let mut tkhd = vec![0u8; 76];
    tkhd.extend_from_slice(&(width << 16).to_be_bytes());
    tkhd.extend_from_slice(&(height << 16).to_be_bytes());
    let mut hdlr = vec![0u8; 8];
    hdlr.extend_from_slice(kind);
    hdlr.extend_from_slice(&[0u8; 12]);
    let mdia = bx(b"mdia", &bx(b"hdlr", &hdlr));
    bx(b"trak", &cat(&[bx(b"tkhd", &tkhd), mdia]))
}

fn text(s: &str) -> EntryValue {
    EntryValue::Text(s.to_string())
}

const IPHONE_DATE: i64 = 1549956432;
const ANDROID_DATE: i64 = 1706943938;
const EPOCH_1904: u32 = 2_082_844_800;

fn iphone_moov_body() -> Vec<u8> {
    let keys = keys_box(&[
        "com.apple.quicktime.make",
        "com.apple.quicktime.model",
        "com.apple.quicktime.software",
        "com.apple.quicktime.location.ISO6709",
        "com.apple.quicktime.creationdate",
    ]);
    let ilst = bx(
        b"ilst",
        &cat(&[
            item(1, 1, b"Apple"),
            item(2, 1, b"iPhone X"),
            item(3, 1, b"12.1.2"),
            item(4, 1, b"+27.1281+100.2508+000.000/"),
            item(5, 1, b"2019-02-12T15:27:12+08:00"),
        ]),
    );
    let meta = bx(b"meta", &cat(&[keys, ilst]));
    cat(&[
        mvhd_v0(EPOCH_1904 + 1000, 600, 300),
        trak(b"soun", 0, 0),
        trak(b"vide", 720, 1280),
        meta,
    ])
}

fn iphone_file(mdat_len: usize) -> Vec<u8> {
    cat(&[
        bx(b"ftyp", b"qt  \0\0\0\0qt  "),
        bx(b"wide", b""),
        bx(b"mdat", &vec![0xAB; mdat_len]),
        bx(b"moov", &iphone_moov_body()),
    ])
}

fn iphone_expected() -> Vec<(String, EntryValue)> {
    vec![
        ("com.apple.quicktime.make".to_string(), text("Apple")),
        ("com.apple.quicktime.model".to_string(), text("iPhone X")),
        ("com.apple.quicktime.software".to_string(), text("12.1.2")),
        (
            "com.apple.quicktime.location.ISO6709".to_string(),
            text("+27.1281+100.2508+000.000/"),
        ),
        (
            "com.apple.quicktime.creationdate".to_string(),
            EntryValue::Time(Timestamp { secs: IPHONE_DATE, nanos: 0, offset: 8 * 3600 }),
        ),
        ("duration".to_string(), EntryValue::U32(500)),
        ("width".to_string(), EntryValue::U32(720)),
        ("height".to_string(), EntryValue::U32(1280)),
    ]
}

fn android_file() -> Vec<u8> {
    let mut xyz = vec![0x00, 0x12, 0x15, 0xc7];
    xyz.extend_from_slice(b"+27.2939+112.6932/");
    let udta = bx(b"udta", &bx(&[0xa9, b'x', b'y', b'z'], &xyz));
    let creation = (ANDROID_DATE as u64 + EPOCH_1904 as u64) as u32;
    let moov = bx(
        b"moov",
        &cat(&[mvhd_v0(creation, 1000, 1063), udta, trak(b"vide", 1920, 1080)]),
    );
    cat(&[bx(b"ftyp", b"isom\0\0\0\0isom"), moov, bx(b"mdat", &[1, 2, 3])])
}

/// Drives a loader over `file` as a caller with I/O would: reads of at most
/// `chunk` bytes, and skips by seeking or by reading and feeding.
fn drive(file: &[u8], seekable: bool, chunk: usize) -> Result<Vec<(String, EntryValue)>, MetadataError> {
    let mut loader = MoovLoader::new();
    let mut pos = 0usize;
    loop {
        match loader.step() {
            LoadStep::Done(a, b) => return moov_metadata(&loader.buffer()[a..b]),
            LoadStep::Failed => return Err(MetadataError::MoovNotFound),
            LoadStep::Skip(n) if seekable => {
                pos = pos.saturating_add(n as usize);
                loader.seeked(n);
            }
            LoadStep::Skip(_) | LoadStep::Read(_) => {
                if pos >= file.len() {
                    return Err(MetadataError::SourceExhausted);
                }
                let end = (pos + chunk).min(file.len());
                loader.feed(&file[pos..end]);
                pos = end;
            }
        }
    }
}

#[test]
fn test_iso_8601_tz_to_rfc3339() {
    let s = "2023-11-02T19:58:34+08".to_string();
    assert_eq!(tz_iso_8601_to_rfc3339(s), "2023-11-02T19:58:34+08:00");

    let s = "2023-11-02T19:58:34+0800".to_string();
    assert_eq!(tz_iso_8601_to_rfc3339(s), "2023-11-02T19:58:34+08:00");

    let s = "2023-11-02T19:58:34+08:00".to_string();
    assert_eq!(tz_iso_8601_to_rfc3339(s), "2023-11-02T19:58:34+08:00");

    let s = "2023-11-02T19:58:34Z".to_string();
    assert_eq!(tz_iso_8601_to_rfc3339(s), "2023-11-02T19:58:34Z");

    let s = "2023-11-02T19:58:34".to_string();
    assert_eq!(tz_iso_8601_to_rfc3339(s), "2023-11-02T19:58:34");
}

#[test]
fn tz_rewrite_trims_only_when_it_rewrites() {
    assert_eq!(tz_iso_8601_to_rfc3339(" 12:00-05 \n".to_string()), "12:00-05:00");
    assert_eq!(tz_iso_8601_to_rfc3339(" 12:00 ".to_string()), " 12:00 ");
    assert_eq!(tz_iso_8601_to_rfc3339("-0530".to_string()), "-05:30");
}

#[test]
fn mov_parse() {
    let entries = parse_mov_metadata(&iphone_file(1000)).unwrap();
    assert_eq!(entries, iphone_expected());
}

#[test]
fn mov_extract_mov() {
    let file = iphone_file(64);
    let (a, b) = extract_moov_body_from_buf(&file).unwrap();
    assert_eq!(&file[a..b], &iphone_moov_body()[..]);
    let entries = parse_moov_body(&file[a..b]).unwrap().unwrap();
    assert_eq!(entries.len(), 5);
    assert_eq!(entries[4].1, text("2019-02-12T15:27:12+08:00"));
}

#[test]
fn parse_mp4() {
    let entries = parse_mov_metadata(&android_file()).unwrap();
    assert_eq!(
        entries,
        vec![
            ("com.apple.quicktime.location.ISO6709".to_string(), text("+27.2939+112.6932/")),
            ("duration".to_string(), EntryValue::U32(1063)),
            (
                "com.apple.quicktime.creationdate".to_string(),
                EntryValue::Time(Timestamp { secs: ANDROID_DATE, nanos: 0, offset: 0 }),
            ),
            ("width".to_string(), EntryValue::U32(1920)),
            ("height".to_string(), EntryValue::U32(1080)),
        ]
    );
}

#[test]
fn location_fallback_is_read_as_latin1() {
    let mut xyz = vec![0, 0, 0, 0];
    xyz.extend_from_slice(&[b'+', 0xe9, b'/']);
    let moov = bx(b"udta", &bx(&[0xa9, b'x', b'y', b'z'], &xyz));
    let entries = moov_metadata(&moov).unwrap();
    assert_eq!(
        entries,
        vec![("com.apple.quicktime.location.ISO6709".to_string(), text("+\u{e9}/"))]
    );
}

#[test]
fn location_fallback_needs_more_than_the_prefix() {
    let moov = bx(b"udta", &bx(&[0xa9, b'x', b'y', b'z'], &[0, 0, 0, 0]));
    assert_eq!(moov_metadata(&moov).unwrap(), vec![]);
}

#[test]
fn unparsable_creation_date_stays_text() {
    let keys = keys_box(&["com.apple.quicktime.creationdate"]);
    let ilst = bx(b"ilst", &item(1, 1, b"yesterday"));
    let moov = cat(&[bx(b"meta", &cat(&[keys, ilst])), mvhd_v0(EPOCH_1904, 0, 0)]);
    let entries = moov_metadata(&moov).unwrap();
    assert_eq!(
        entries,
        vec![
            ("com.apple.quicktime.creationdate".to_string(), text("yesterday")),
            ("duration".to_string(), EntryValue::U32(0)),
        ]
    );
}

#[test]
fn typed_ilst_values() {
    let keys = keys_box(&["a", "b", "c", "d", "e", "f", "g"]);
    let ilst = bx(
        b"ilst",
        &cat(&[
            item(1, 22, &[1]),
            item(2, 21, &[0xff, 0xfe]),
            item(3, 21, &4i64.to_be_bytes()),
            item(4, 23, &0x3f70_5bc0u32.to_be_bytes()),
            item(5, 22, &7u32.to_be_bytes()),
            item(6, 13, &[0xff, 0xd8]),
            item(7, 1, &[0xff]),
        ]),
    );
    let entries = moov_metadata(&bx(b"meta", &cat(&[keys, ilst]))).unwrap();
    let values: Vec<EntryValue> = entries.into_iter().map(|e| e.1).collect();
    assert_eq!(
        values,
        vec![
            EntryValue::U8(1),
            EntryValue::I64(-2),
            EntryValue::I64(4),
            EntryValue::F32Bits(0x3f70_5bc0),
            EntryValue::U32(7),
            EntryValue::Undefined(vec![0xff, 0xd8]),
            EntryValue::Undefined(vec![0xff]),
        ]
    );
}

#[test]
fn keys_and_values_are_cut_to_the_shorter_list() {
    let keys = keys_box(&["a", "b", "c"]);
    let ilst = bx(b"ilst", &cat(&[item(1, 1, b"x"), item(2, 1, b"y")]));
    let entries = parse_moov_body(&bx(b"meta", &cat(&[keys, ilst]))).unwrap().unwrap();
    assert_eq!(entries, vec![("a".to_string(), text("x")), ("b".to_string(), text("y"))]);
}

#[test]
fn missing_ilst_gives_no_entries() {
    let moov = bx(b"meta", &keys_box(&["a"]));
    assert_eq!(parse_moov_body(&moov), Ok(None));
}

#[test]
fn key_with_invalid_utf8_is_malformed() {
    let mut keys = keys_box(&["ab"]);
    let n = keys.len();
    keys[n - 1] = 0xff;
    let moov = bx(b"meta", &cat(&[keys, bx(b"ilst", &item(1, 1, b"x"))]));
    assert_eq!(parse_moov_body(&moov), Err(()));
    assert_eq!(moov_metadata(&moov), Err(MetadataError::InvalidMoov));
}

#[test]
fn mvhd_version_one_and_zero_timescale() {
    let mut body = vec![1, 0, 0, 0];
    body.extend_from_slice(&(EPOCH_1904 as u64 + 60).to_be_bytes());
    body.extend_from_slice(&0u64.to_be_bytes());
    body.extend_from_slice(&0u32.to_be_bytes());
    body.extend_from_slice(&5u64.to_be_bytes());
    let entries = moov_metadata(&bx(b"mvhd", &body)).unwrap();
    assert_eq!(
        entries,
        vec![
            ("duration".to_string(), EntryValue::U32(u32::MAX)),
            (
                "com.apple.quicktime.creationdate".to_string(),
                EntryValue::Time(Timestamp { secs: 60, nanos: 0, offset: 0 }),
            ),
        ]
    );
}

#[test]
fn find_box_takes_the_first_match_depth_first() {
    let first = bx(b"udta", &bx(b"name", b"one"));
    let second = bx(b"udta", &bx(b"name", b"two"));
    let d = cat(&[bx(b"free", b"xx"), first.clone(), second]);
    let udta = u32::from_be_bytes(*b"udta");
    let name = u32::from_be_bytes(*b"name");
    match find_box(&d, &[udta, name]) {
        Lookup::Found(s) => {
            assert_eq!(s.start, 10 + 8);
            assert_eq!(&d[s.start + s.header_size..s.end], b"one");
            assert_eq!(s.header_size as u64 + (s.end - s.start - s.header_size) as u64, s.box_size);
        }
        other => panic!("{other:?}"),
    }
    // `free` is not on the path, so its body is never searched.
    let hidden = cat(&[bx(b"free", &bx(b"name", b"x"))]);
    assert_eq!(find_box(&hidden, &[name]), Lookup::Absent);
    assert_eq!(find_box(&[0, 0, 0, 4, b'a', b'b', b'c', b'd'], &[name]), Lookup::Malformed);
}

#[test]
fn header_and_body_add_up_for_every_box() {
    let file = iphone_file(100);
    let mut i = 0usize;
    while i < file.len() {
        let ty = u32::from_be_bytes([file[i + 4], file[i + 5], file[i + 6], file[i + 7]]);
        match find_box(&file[i..], &[ty]) {
            Lookup::Found(s) => {
                assert_eq!(s.start, 0);
                assert_eq!(s.header_size as u64 + (s.end - s.header_size) as u64, s.box_size);
                i += s.end;
            }
            other => panic!("{other:?}"),
        }
    }
    assert_eq!(i, file.len());
}

#[test]
fn extended_size_header() {
    let mut d = vec![0, 0, 0, 1];
    d.extend_from_slice(b"moov");
    d.extend_from_slice(&20u64.to_be_bytes());
    d.extend_from_slice(&[9, 9, 9, 9]);
    assert_eq!(extract_moov_body_from_buf(&d), Ok((16, 20)));
}

#[test]
fn scan_requests() {
    let file = iphone_file(1000);
    assert_eq!(extract_moov_body_from_buf(&file[..3]), Err(Error::Need(5)));
    // ftyp (20) + wide (8) + mdat header (8) + 10 body bytes buffered.
    assert_eq!(extract_moov_body_from_buf(&file[..46]), Err(Error::Skip(990)));
    assert_eq!(extract_moov_body_from_buf(&[0, 0, 0, 3, 1, 2, 3, 4]), Err(Error::ParseFailed));
}

#[test]
fn skip_then_resume_seekable_and_forward_only_agree() {
    let file = iphone_file(100_000);
    let seek = drive(&file, true, 4096).unwrap();
    let read = drive(&file, false, 4096).unwrap();
    assert_eq!(seek, iphone_expected());
    assert_eq!(read, seek);
}

#[test]
fn small_chunks_give_the_same_metadata() {
    let file = iphone_file(5000);
    let whole = parse_mov_metadata(&file).unwrap();
    for chunk in [1, 3, 7, 64] {
        assert_eq!(drive(&file, false, chunk).unwrap(), whole);
        assert_eq!(drive(&file, true, chunk).unwrap(), whole);
    }
}

#[test]
fn loader_skips_by_discarding_fed_bytes() {
    let mut loader = MoovLoader::new();
    loader.feed(&[0, 0, 0, 20, b'f', b'r', b'e', b'e', 1, 2]);
    assert_eq!(loader.step(), LoadStep::Skip(10));
    assert_eq!(loader.buffer(), &[] as &[u8]);
    loader.feed(&[0; 4]);
    assert_eq!(loader.pending_skip(), 6);
    loader.feed(&[0, 0, 0, 0, 0, 0, 0, 0, 0, 9]);
    assert_eq!(loader.pending_skip(), 0);
    assert_eq!(loader.buffer(), &[0, 0, 0, 9]);
    assert_eq!(loader.consumed(), 20);
    assert_eq!(loader.step(), LoadStep::Read(4));
    loader.reset();
    assert_eq!(loader.step(), LoadStep::Read(8));
}

#[test]
fn truncated_moov_is_source_exhaustion() {
    let file = iphone_file(100);
    let cut = &file[..file.len() - 30];
    assert_eq!(parse_mov_metadata(cut), Err(MetadataError::SourceExhausted));
    assert_eq!(drive(cut, true, 16), Err(MetadataError::SourceExhausted));
    assert_eq!(drive(cut, false, 16), Err(MetadataError::SourceExhausted));
}

#[test]
fn malformed_top_level_is_moov_not_found() {
    let file = cat(&[bx(b"ftyp", b"isom"), vec![0, 0, 0, 2, b'x', b'x', b'x', b'x']]);
    assert_eq!(parse_mov_metadata(&file), Err(MetadataError::MoovNotFound));
    assert_eq!(drive(&file, true, 16), Err(MetadataError::MoovNotFound));
}

#[test]
fn malformed_box_in_moov_is_invalid_moov() {
    let file = bx(b"moov", &[0, 0, 0, 9, b'm', b'e', b't', b'a']);
    assert_eq!(parse_mov_metadata(&file), Err(MetadataError::InvalidMoov));
}

#[test]
fn parsing_twice_gives_identical_output() {
    let file = iphone_file(10);
    assert_eq!(parse_mov_metadata(&file), parse_mov_metadata(&file));
    let file = android_file();
    assert_eq!(parse_mov_metadata(&file), parse_mov_metadata(&file));
}

#[test]
fn video_info_is_empty() {
    let info = parse_video_info(&iphone_file(10)).unwrap();
    assert_eq!(info.len(), 0);
    assert_eq!(info.get(VideoInfoTag::Make), None);
}
