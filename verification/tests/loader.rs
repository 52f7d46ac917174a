use plust_core::demuxer::Demuxer;
use plust_core::loader::SegmentSchedule;
use plust_core::sample_buffer::Sample;

fn sample() -> Sample {
    Sample { data: vec![1], pts: 0, dts: 0, duration: 1, timescale: 1, is_key: true, is_last: false }
}

#[test]
fn schedule_hands_out_consecutive_numbers() {
    let mut s = SegmentSchedule::new(5, 3);
    assert_eq!(s.next_segment(), Some(5));
    assert_eq!(s.next_segment(), Some(6));
    assert_eq!(s.next_segment(), Some(7));
    assert_eq!(s.next_segment(), None);
    assert_eq!(s.next_segment(), None);
}

#[test]
fn empty_schedule() {
    let mut s = SegmentSchedule::new(1, 0);
    assert_eq!(s.next_segment(), None);
    let mut s = SegmentSchedule::new(1, -4);
    assert_eq!(s.next_segment(), None);
}

#[test]
fn only_the_final_sample_of_the_last_segment_is_last() {
    let s = SegmentSchedule::new(1, 2);
    assert!(s.is_last_segment(2));
    assert!(!s.is_last_segment(1));
    assert!(!s.finish_sample(1, sample(), false).is_last);
    assert!(!s.finish_sample(2, sample(), true).is_last);
    assert!(s.finish_sample(2, sample(), false).is_last);
}


fn mp4_box(kind: &[u8; 4], payload: &[u8]) -> Vec<u8> {
    let mut out = ((payload.len() + 8) as u32).to_be_bytes().to_vec();
    out.extend_from_slice(kind);
    out.extend_from_slice(payload);
    out
}

fn full_box(kind: &[u8; 4], flags: u32, body: &[u8]) -> Vec<u8> {
    let mut p = (flags & 0x00ff_ffff).to_be_bytes().to_vec();
    p.extend_from_slice(body);
    mp4_box(kind, &p)
}

fn init_segment(timescale: u32) -> Vec<u8> {
    let mut body = vec![0u8; 8];
    body.extend_from_slice(&timescale.to_be_bytes());
    body.extend_from_slice(&[0u8; 12]);
    mp4_box(b"moov", &mp4_box(b"trak", &mp4_box(b"mdia", &full_box(b"mdhd", 0, &body))))
}

fn media_segment(count: u32, duration: u32) -> Vec<u8> {
    let mut mdat = Vec::new();
    let mut records = Vec::new();
    for i in 0..count {
        let sample = [0, 0, 0, 1, if i == 0 { 0x65 } else { 0x41 }];
        mdat.extend_from_slice(&sample);
        records.extend_from_slice(&duration.to_be_bytes());
        records.extend_from_slice(&(sample.len() as u32).to_be_bytes());
    }
    let tfhd = full_box(b"tfhd", 0, &1u32.to_be_bytes());
    let mut trun_body = count.to_be_bytes().to_vec();
    trun_body.extend_from_slice(&records);
    let trun = full_box(b"trun", 0x0100 | 0x0200, &trun_body);
    let mut out = mp4_box(b"moof", &mp4_box(b"traf", &[tfhd, trun].concat()));
    out.extend_from_slice(&mp4_box(b"mdat", &mdat));
    out
}

#[test]
fn loading_segments_keeps_one_timeline_and_flags_the_end() {
    let mut demuxer = Demuxer::from_init_segment(&init_segment(10)).unwrap();
    let mut schedule = SegmentSchedule::new(1, 2);
    let mut queue = Vec::new();
    while let Some(n) = schedule.next_segment() {
        let seg = media_segment(3, 5);
        queue.extend(schedule.load_segment(&mut demuxer, n, &seg).unwrap());
    }
    let dts: Vec<i64> = queue.iter().map(|s| s.dts).collect();
    assert_eq!(dts, vec![0, 5, 10, 15, 20, 25]);
    let last: Vec<bool> = queue.iter().map(|s| s.is_last).collect();
    assert_eq!(last, vec![false, false, false, false, false, true]);
    let keys: Vec<bool> = queue.iter().map(|s| s.is_key).collect();
    assert_eq!(keys, vec![true, false, false, true, false, false]);
    assert_eq!(demuxer.next_decode_time(), 30);
}

#[test]
fn checked_loading_refuses_data_past_the_segment() {
    let mut demuxer = Demuxer::from_init_segment(&init_segment(10)).unwrap();
    let schedule = SegmentSchedule::new(1, 1);
    let mut seg = media_segment(2, 5);
    seg.truncate(seg.len() - 1);
    assert!(schedule.load_segment_checked(&mut demuxer, 1, &seg).is_none());
    assert_eq!(demuxer.next_decode_time(), 0);
    assert!(matches!(schedule.load_segment_checked(&mut demuxer, 1, &mp4_box(b"mdat", &[])), Some(None)));
    let whole = media_segment(2, 5);
    let samples = schedule.load_segment_checked(&mut demuxer, 1, &whole).unwrap().unwrap();
    assert!(samples[1].is_last && !samples[0].is_last);
    assert_eq!(demuxer.next_decode_time(), 10);
}
