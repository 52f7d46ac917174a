use plust_core::segment::{get_segment_info, get_segment_info_checked, SampleMetadata, SegmentError};

fn mp4_box(kind: &[u8; 4], payload: &[u8]) -> Vec<u8> {
    let mut out = ((payload.len() + 8) as u32).to_be_bytes().to_vec();
    out.extend_from_slice(kind);
    out.extend_from_slice(payload);
    out
}

fn full_box(kind: &[u8; 4], flags: u32, body: &[u8]) -> Vec<u8> {
    let mut p = (flags & 0x00ff_ffff).to_be_bytes().to_vec();
    p.extend_from_slice(body);
    mp4_box(kind, &p)
}

fn tfhd(flags: u32, fields: &[u32]) -> Vec<u8> {
    let mut body = 1u32.to_be_bytes().to_vec(); // track id
    for f in fields {
        body.extend_from_slice(&f.to_be_bytes());
    }
    full_box(b"tfhd", flags, &body)
}

fn trun(flags: u32, count: u32, head: &[u32], records: &[u32]) -> Vec<u8> {
    let mut body = count.to_be_bytes().to_vec();
    for f in head.iter().chain(records) {
        body.extend_from_slice(&f.to_be_bytes());
    }
    full_box(b"trun", flags, &body)
}

fn segment(tfhd: &[u8], trun: &[u8], mdat: &[u8]) -> Vec<u8> {
    let mut traf = tfhd.to_vec();
    traf.extend_from_slice(trun);
    let mut out = mp4_box(b"moof", &mp4_box(b"traf", &traf));
    out.extend_from_slice(&mp4_box(b"mdat", mdat));
    out
}

fn meta(size: u32, duration: u32, cts_offset: i32) -> SampleMetadata {
    SampleMetadata { size, duration, cts_offset }
}

#[test]
fn records_hold_duration_size_and_offset() {
    let seg = segment(
        &tfhd(0, &[]),
        &trun(0x0001 | 0x0100 | 0x0200 | 0x0800, 2, &[0], &[10, 100, 0, 20, 200, 0xffff_fffe]),
        &[0; 300],
    );
    let info = get_segment_info(&seg).unwrap();
    assert_eq!(info.samples, vec![meta(100, 10, 0), meta(200, 20, -2)]);
    let mdat_start = seg.len() - 308;
    assert_eq!(info.mdat_offset, mdat_start + 8);
}

#[test]
fn missing_fields_take_the_defaults() {
    // Default duration (0x08) and size (0x10) after a base data offset (0x01).
    let seg = segment(&tfhd(0x01 | 0x08 | 0x10, &[0, 0, 512, 64]), &trun(0x01, 3, &[0], &[]), &[]);
    let info = get_segment_info(&seg).unwrap();
    assert_eq!(info.samples, vec![meta(64, 512, 0); 3]);
}

#[test]
fn sample_flags_are_skipped() {
    // Per-sample flags (0x400) and a first-sample-flags field (0x04).
    let seg = segment(
        &tfhd(0x08, &[7]),
        &trun(0x04 | 0x0200 | 0x0400 | 0x0800, 2, &[0xdead], &[5, 0, 3, 6, 0, 4]),
        &[0; 11],
    );
    let info = get_segment_info(&seg).unwrap();
    assert_eq!(info.samples, vec![meta(5, 7, 3), meta(6, 7, 4)]);
}

#[test]
fn missing_boxes_are_errors() {
    let no_tfhd = mp4_box(b"moof", &mp4_box(b"traf", &trun(0, 0, &[], &[])));
    assert!(matches!(get_segment_info(&no_tfhd), Err(SegmentError::NoTfhd)));
    let no_trun = mp4_box(b"moof", &mp4_box(b"traf", &tfhd(0, &[])));
    assert!(matches!(get_segment_info(&no_trun), Err(SegmentError::NoTrun)));
    let mut no_mdat = mp4_box(b"moof", &mp4_box(b"traf", &[tfhd(0, &[]), trun(0, 0, &[], &[0])].concat()));
    no_mdat.extend_from_slice(&mp4_box(b"free", &[]));
    assert!(matches!(get_segment_info(&no_mdat), Err(SegmentError::InvalidSegment)));
}

#[test]
fn short_trun_is_invalid() {
    // A trun of 16 bytes: header, flags and count only.
    let seg = segment(&tfhd(0, &[]), &trun(0, 0, &[], &[]), &[]);
    assert!(matches!(get_segment_info(&seg), Err(SegmentError::InvalidSegment)));
}

#[test]
fn checked_refuses_records_past_the_box() {
    // Two samples announced, one record present.
    let seg = segment(&tfhd(0, &[]), &trun(0x0100, 2, &[], &[9]), &[]);
    assert!(get_segment_info_checked(&seg).is_none());
    let ok = segment(&tfhd(0, &[]), &trun(0x0100, 1, &[], &[9]), &[]);
    assert!(matches!(get_segment_info_checked(&ok), Some(Ok(_))));
    // A tfhd announcing a default duration it does not hold.
    let short_tfhd = segment(&tfhd(0x08, &[]), &trun(0, 0, &[], &[0]), &[]);
    assert!(get_segment_info_checked(&short_tfhd).is_none());
}

fn hex(text: &str) -> Vec<u8> {
    let digits: Vec<u8> = text.bytes().filter(|b| b.is_ascii_hexdigit()).collect();
    digits
        .chunks(2)
        .map(|pair| u8::from_str_radix(std::str::from_utf8(pair).unwrap(), 16).unwrap())
        .collect()
}

#[test]
fn table_with_defaults_and_signed_offsets() {
    let seg = hex(
        "00000050 6d6f6f66 00000048 74726166 00000014 74666864 00000008 00000001 00000200 \
         0000002c 7472756e 00000e01 00000002 00000000 00000064 02000000 00000400 00000032 \
         01010000 fffffe00 00000008 6d646174",
    );
    let info = get_segment_info(&seg).unwrap();
    assert_eq!(info.samples, vec![meta(100, 512, 1024), meta(50, 512, -512)]);
    assert_eq!(info.mdat_offset, 88);
}

#[test]
fn tfhd_without_trun() {
    let seg = hex("00000024 6d6f6f66 0000001c 74726166 00000014 74666864 00000000 00000001 00000000");
    assert!(matches!(get_segment_info(&seg), Err(SegmentError::NoTrun)));
}

#[test]
fn sixteen_byte_trun_is_rejected() {
    let seg = hex(
        "00000030 6d6f6f66 00000028 74726166 00000010 74666864 00000000 00000001 00000010 \
         7472756e 00000000 00000000",
    );
    assert!(matches!(get_segment_info(&seg), Err(SegmentError::InvalidSegment)));
}
