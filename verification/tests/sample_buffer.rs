use plust_core::sample_buffer::{time_at_or_before, Sample, SampleBuffer};

const TIMESCALE: u32 = 1000;

fn ticks(seconds: f64) -> i64 {
    (seconds * TIMESCALE as f64).round() as i64
}

fn seconds(ticks: i64) -> f64 {
    ticks as f64 / TIMESCALE as f64
}

fn make_sample(dts: f64, pts: f64, is_key: bool) -> Sample {
    Sample {
        pts: ticks(pts),
        dts: ticks(dts),
        duration: 33,
        timescale: TIMESCALE,
        data: vec![dts as u8],
        is_key,
        is_last: false,
    }
}

// Helper: make a non-keyframe sample (dts == pts for simplicity)
fn make_frame(dts: f64) -> Sample {
    make_sample(dts, dts, false)
}

// Helper: make a keyframe
fn make_keyframe(dts: f64) -> Sample {
    make_sample(dts, dts, true)
}

#[test]
fn new_buffer_is_empty() {
    let buf = SampleBuffer::new();
    assert_eq!(buf.len(), 0);
    assert!(buf.is_empty());
}

#[test]
fn push_increases_len() {
    let mut buf = SampleBuffer::new();
    buf.push(make_frame(0.0));
    assert_eq!(buf.len(), 1);
    buf.push(make_frame(1.0));
    assert_eq!(buf.len(), 2);
}

#[test]
fn peek_returns_front_without_removing() {
    let mut buf = SampleBuffer::new();
    buf.push(make_frame(0.0));
    buf.push(make_frame(1.0));

    assert_eq!(seconds(buf.peek_next().unwrap().dts), 0.0);
    assert_eq!(buf.len(), 2); // Still 2
    assert_eq!(seconds(buf.peek_next().unwrap().dts), 0.0); // Same sample
}

#[test]
fn pop_removes_and_returns_front() {
    let mut buf = SampleBuffer::new();
    buf.push(make_frame(0.0));
    buf.push(make_frame(1.0));
    buf.push(make_frame(2.0));

    assert_eq!(seconds(buf.pop_next().unwrap().dts), 0.0);
    assert_eq!(buf.len(), 2);
    assert_eq!(seconds(buf.pop_next().unwrap().dts), 1.0);
    assert_eq!(buf.len(), 1);
    assert_eq!(seconds(buf.pop_next().unwrap().dts), 2.0);
    assert_eq!(buf.len(), 0);
    assert!(buf.pop_next().is_none());
}

#[test]
fn empty_buffer_returns_none() {
    let mut buf = SampleBuffer::new();
    assert!(buf.peek_next().is_none());
    assert!(buf.pop_next().is_none());
}

#[test]
fn clear_empties_buffer() {
    let mut buf = SampleBuffer::new();
    buf.push(make_frame(0.0));
    buf.push(make_frame(1.0));
    assert_eq!(buf.len(), 2);

    buf.clear();
    assert_eq!(buf.len(), 0);
    assert!(buf.peek_next().is_none());
}

#[test]
fn seek_finds_keyframe_before_pts() {
    let mut buf = SampleBuffer::new();
    // Simulate a GOP: I B B P B B P
    buf.push(make_keyframe(0.0)); // I-frame at 0
    buf.push(make_frame(1.0));
    buf.push(make_frame(2.0));
    buf.push(make_keyframe(3.0)); // I-frame at 3
    buf.push(make_frame(4.0));
    buf.push(make_frame(5.0));

    // Seek to pts=4.5 should find keyframe at 3.0
    let found = buf.seek(ticks(4.5), TIMESCALE);
    assert!(found);
    assert_eq!(seconds(buf.peek_next().unwrap().dts), 3.0);
    assert!(buf.peek_next().unwrap().is_key);
}

#[test]
fn seek_to_first_keyframe() {
    let mut buf = SampleBuffer::new();
    buf.push(make_keyframe(0.0));
    buf.push(make_frame(1.0));
    buf.push(make_frame(2.0));

    // Seek to pts=1.5 should find keyframe at 0.0
    let found = buf.seek(ticks(1.5), TIMESCALE);
    assert!(found);
    assert_eq!(seconds(buf.peek_next().unwrap().dts), 0.0);
    assert_eq!(buf.len(), 3); // Nothing dropped
}

#[test]
fn seek_before_any_keyframe_clears_buffer() {
    let mut buf = SampleBuffer::new();
    buf.push(make_keyframe(5.0)); // Keyframe at 5.0
    buf.push(make_frame(6.0));

    // Seek to pts=2.0, no keyframe before that
    let found = buf.seek(ticks(2.0), TIMESCALE);
    assert!(!found);
    assert!(buf.is_empty());
}

#[test]
fn seek_with_no_keyframes_clears_buffer() {
    let mut buf = SampleBuffer::new();
    buf.push(make_frame(0.0));
    buf.push(make_frame(1.0));
    buf.push(make_frame(2.0));

    let found = buf.seek(ticks(1.5), TIMESCALE);
    assert!(!found);
    assert!(buf.is_empty());
}

#[test]
fn seek_exactly_on_keyframe() {
    let mut buf = SampleBuffer::new();
    buf.push(make_keyframe(0.0));
    buf.push(make_frame(1.0));
    buf.push(make_keyframe(2.0));
    buf.push(make_frame(3.0));

    // Seek to exactly pts=2.0
    let found = buf.seek(ticks(2.0), TIMESCALE);
    assert!(found);
    assert_eq!(seconds(buf.peek_next().unwrap().dts), 2.0);
    assert_eq!(buf.len(), 2); // Dropped first 2 samples
}

#[test]
fn seeking_twice_to_the_same_time_keeps_everything() {
    let mut buf = SampleBuffer::new();
    buf.push(make_keyframe(0.0));
    buf.push(make_frame(1.0));
    buf.push(make_keyframe(2.0));
    buf.push(make_frame(3.0));
    assert!(buf.seek(ticks(2.5), TIMESCALE));
    assert_eq!(buf.len(), 2);
    assert!(buf.seek(ticks(2.5), TIMESCALE));
    assert_eq!(buf.len(), 2);
    assert_eq!(seconds(buf.peek_next().unwrap().dts), 2.0);
}

#[test]
fn fifo_order_survives_interleaving() {
    let mut buf = SampleBuffer::new();
    buf.push(make_frame(0.0));
    buf.push(make_frame(1.0));
    assert_eq!(seconds(buf.pop_next().unwrap().dts), 0.0);
    buf.push(make_frame(2.0));
    assert_eq!(seconds(buf.pop_next().unwrap().dts), 1.0);
    assert_eq!(seconds(buf.pop_next().unwrap().dts), 2.0);
}

#[test]
fn seek_compares_across_timescales() {
    let mut buf = SampleBuffer::new();
    let mut a = make_keyframe(0.0);
    a.pts = 3;
    a.timescale = 2; // 1.5 s
    buf.push(a);
    buf.push(make_frame(2.0));
    // 1.5 s is at or before 3/2 s but after 1/1 s.
    assert!(buf.seek(3, 2));
    assert_eq!(buf.len(), 2);
    assert!(!buf.seek(1, 1));
    assert!(buf.is_empty());
}

#[test]
fn zero_timescales_compare_like_float_division() {
    assert!(time_at_or_before(-1, 0, 5, 1)); // -inf
    assert!(!time_at_or_before(1, 0, 5, 1)); // +inf
    assert!(!time_at_or_before(0, 0, 5, 1)); // NaN
    assert!(time_at_or_before(7, 1, 1, 0)); // x <= +inf
    assert!(!time_at_or_before(7, 1, 0, 0)); // x <= NaN
    assert!(time_at_or_before(1, 3, 1, 3));
    assert!(!time_at_or_before(2, 3, 1, 3));
}
