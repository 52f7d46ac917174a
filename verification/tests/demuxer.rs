use plust_core::demuxer::Demuxer;

fn mp4_box(kind: &[u8; 4], payload: &[u8]) -> Vec<u8> {
    let mut out = ((payload.len() + 8) as u32).to_be_bytes().to_vec();
    out.extend_from_slice(kind);
    out.extend_from_slice(payload);
    out
}

fn full_box(kind: &[u8; 4], version: u8, flags: u32, body: &[u8]) -> Vec<u8> {
    let mut p = (flags & 0x00ff_ffff).to_be_bytes().to_vec();
    p[0] = version;
    p.extend_from_slice(body);
    mp4_box(kind, &p)
}

fn init_segment(timescale: u32, version: u8) -> Vec<u8> {
    let mut body = vec![0u8; if version == 0 { 8 } else { 16 }];
    body.extend_from_slice(&timescale.to_be_bytes());
    body.extend_from_slice(&[0u8; 12]);
    let mdhd = full_box(b"mdhd", version, 0, &body);
    mp4_box(b"moov", &mp4_box(b"trak", &mp4_box(b"mdia", &mdhd)))
}

/// A media segment of `count` samples, each `duration` ticks long with a
/// composition offset of `cts`; the first sample is an IDR slice.
fn media_segment(count: u32, duration: u32, cts: u32) -> Vec<u8> {
    let mut mdat = Vec::new();
    let mut records = Vec::new();
    for i in 0..count {
        let nal_type = if i == 0 { 0x65 } else { 0x41 };
        let sample = [0, 0, 0, 2, nal_type, i as u8];
        mdat.extend_from_slice(&sample);
        for f in [duration, sample.len() as u32, cts] {
            records.extend_from_slice(&f.to_be_bytes());
        }
    }
    let tfhd = full_box(b"tfhd", 0, 0, &1u32.to_be_bytes());
    let mut trun_body = count.to_be_bytes().to_vec();
    trun_body.extend_from_slice(&records);
    let trun = full_box(b"trun", 0, 0x0100 | 0x0200 | 0x0800, &trun_body);
    let mut out = mp4_box(b"moof", &mp4_box(b"traf", &[tfhd, trun].concat()));
    out.extend_from_slice(&mp4_box(b"mdat", &mdat));
    out
}

fn seconds(ticks: i64, timescale: u32) -> f64 {
    ticks as f64 / timescale as f64
}

#[test]
fn demux_real_segment() {
    let init_segment = init_segment(30, 0);
    let mut demuxer = Demuxer::from_init_segment(&init_segment).expect("failed to create demuxer");

    let seg1 = media_segment(301, 1, 2);
    let seg2 = media_segment(10, 1, 2);

    println!("=== Segment 1 ===");
    let mut seg1_samples = Vec::new();
    {
        let mut iter = demuxer.demux_segment(&seg1).expect("demux failed");
        while let Some(s) = iter.next() {
            seg1_samples.push(s);
        }
    }
    let last = seg1_samples.last().unwrap();
    println!("Seg1: {} samples, last dts={:.3}s", seg1_samples.len(), seconds(last.dts, last.timescale));

    println!("\n=== Segment 2 ===");
    let first = demuxer.demux_segment(&seg2).expect("demux failed").next().unwrap();
    let (pts, dts) = (seconds(first.pts, first.timescale), seconds(first.dts, first.timescale));
    println!("Seg2 first sample: pts={:.3}s, dts={:.3}s", pts, dts);
    assert!(dts > 10.0, "Seg2 should continue from seg1 (dts > 10s)");
}

#[test]
fn test_nal_types() {
    let init_segment = init_segment(30, 0);
    let mut demuxer = Demuxer::from_init_segment(&init_segment).expect("failed to create demuxer");

    let seg1 = media_segment(60, 1, 0);

    println!("=== First 15 samples NAL analysis ===");
    let mut keyframe_count = 0;
    let mut iter = demuxer.demux_segment(&seg1).unwrap();
    let mut i = 0;
    while let Some(sample) = iter.next() {
        if i == 15 {
            break;
        }
        let nal_type = sample.data[4] & 0x1F;
        let is_key = sample.is_key;
        if is_key {
            keyframe_count += 1;
        }
        println!(
            "Sample {:2}: size={:6}, nal_type={:2}, is_key={}, bytes[0..8]={:02x?}",
            i,
            sample.data.len(),
            nal_type,
            is_key,
            &sample.data[..8.min(sample.data.len())]
        );
        i += 1;
    }
    println!("\nKeyframes in first 15 samples: {}", keyframe_count);
    assert!(keyframe_count <= 2, "Too many keyframes - NAL detection is wrong");
}

#[test]
fn samples_carry_ticks_and_data() {
    let init = init_segment(1000, 1);
    let mut demuxer = Demuxer::from_init_segment(&init).unwrap();
    let seg = media_segment(3, 40, 80);
    let mut iter = demuxer.demux_segment(&seg).unwrap();
    let a = iter.next().unwrap();
    assert_eq!((a.dts, a.pts, a.duration, a.timescale), (0, 80, 40, 1000));
    assert_eq!(a.data, vec![0, 0, 0, 2, 0x65, 0]);
    assert!(a.is_key && !a.is_last);
    let b = iter.next().unwrap();
    assert_eq!((b.dts, b.pts), (40, 120));
    assert!(!b.is_key);
    assert!(iter.has_more());
    let c = iter.next().unwrap();
    assert_eq!(c.dts, 80);
    assert_eq!(c.data[5], 2);
    assert!(!iter.has_more());
    assert!(iter.next().is_none());
}

#[test]
fn demuxer_needs_a_media_header() {
    assert!(Demuxer::from_init_segment(&mp4_box(b"moov", &[])).is_none());
    assert!(matches!(Demuxer::from_init_segment_checked(&mp4_box(b"moov", &[])), Some(None)));
    // An mdhd box that stops before its timescale.
    let short = mp4_box(b"moov", &mp4_box(b"trak", &mp4_box(b"mdia", &full_box(b"mdhd", 0, 0, &[0; 4]))));
    assert!(Demuxer::from_init_segment_checked(&short).is_none());
}

#[test]
fn unreadable_segments_give_no_iterator() {
    let mut demuxer = Demuxer::from_init_segment(&init_segment(30, 0)).unwrap();
    assert!(demuxer.demux_segment(&mp4_box(b"mdat", &[])).is_none());
    assert!(matches!(demuxer.demux_segment_checked(&mp4_box(b"mdat", &[])), Some(None)));
    let seg = media_segment(2, 1, 0);
    let first = demuxer.demux_segment(&seg).unwrap().next().unwrap();
    assert_eq!(first.dts, 0);
}

#[test]
fn next_in_bounds_sees_data_past_the_end() {
    let mut demuxer = Demuxer::from_init_segment(&init_segment(30, 0)).unwrap();
    let mut seg = media_segment(2, 1, 0);
    seg.truncate(seg.len() - 3);
    let mut iter = demuxer.demux_segment(&seg).unwrap();
    assert!(iter.next_in_bounds());
    iter.next().unwrap();
    assert!(!iter.next_in_bounds());
}

#[test]
fn collected_samples_follow_the_timeline() {
    let mut demuxer = Demuxer::from_init_segment(&init_segment(90000, 0)).unwrap();
    let seg1 = media_segment(4, 3000, 6000);
    let seg2 = media_segment(2, 3000, 0);
    let first = {
        let mut iter = demuxer.demux_segment(&seg1).unwrap();
        iter.collect_samples()
    };
    let dts: Vec<i64> = first.iter().map(|s| s.dts).collect();
    assert_eq!(dts, vec![0, 3000, 6000, 9000]);
    let pts: Vec<i64> = first.iter().map(|s| s.pts).collect();
    assert_eq!(pts, vec![6000, 9000, 12000, 15000]);
    assert_eq!(first[3].data[5], 3);
    let second = demuxer.demux_segment(&seg2).unwrap().collect_samples();
    assert_eq!(second[0].dts, 12000);
    assert_eq!(second[1].dts, 15000);
}

#[test]
fn partly_consumed_segment_advances_by_what_was_taken() {
    let mut demuxer = Demuxer::from_init_segment(&init_segment(10, 0)).unwrap();
    let seg = media_segment(5, 7, 0);
    {
        let mut iter = demuxer.demux_segment(&seg).unwrap();
        iter.next();
        iter.next();
    }
    let s = demuxer.demux_segment(&seg).unwrap().next().unwrap();
    assert_eq!(s.dts, 14);
}
