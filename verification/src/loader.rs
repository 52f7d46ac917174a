use vstd::prelude::*;

use crate::demuxer::Demuxer;
use crate::sample_buffer::Sample;
use crate::segment::get_segment_info_checked;

verus! {

/// The media segments to load, in order: the numbers from the template's
/// start number on, one per segment of the presentation. The final sample
/// of the last one is the last sample of the presentation.
pub struct SegmentSchedule {
    next_number: i32,
    end_number: i32,
    last_number: i32,
}

impl SegmentSchedule {
    /// The number the next segment gets.
    pub closed spec fn next(&self) -> int {
        self.next_number as int
    }

    /// One past the number of the last segment to load.
    pub closed spec fn end(&self) -> int {
        self.end_number as int
    }

    /// The number of the presentation's last segment.
    pub closed spec fn last(&self) -> int {
        self.last_number as int
    }

    /// The segments numbered `start_number` to
    /// `start_number + segment_count - 1`; none where the count is not
    /// positive. Both ends must be `i32` numbers.
    pub fn new(start_number: i32, segment_count: i32) -> (schedule: SegmentSchedule)
        requires
            i32::MIN <= start_number + segment_count - 1,
            start_number + segment_count <= i32::MAX,
        ensures
            schedule.next() == start_number,
            schedule.end() == start_number + segment_count,
            schedule.last() == start_number + segment_count - 1,
    {
        let last_number = start_number + segment_count - 1;
        let end_number = start_number + segment_count;
        SegmentSchedule { next_number: start_number, end_number, last_number }
    }

    /// The number of the next segment to load, or `None` when all were
    /// handed out.
    pub fn next_segment(&mut self) -> (number: Option<i32>)
        ensures
            final(self).end() == old(self).end(),
            final(self).last() == old(self).last(),
            match number {
                Some(n) => {
                    &&& old(self).next() < old(self).end()
                    &&& n == old(self).next()
                    &&& final(self).next() == old(self).next() + 1
                },
                None => old(self).next() >= old(self).end() && final(self).next() == old(self).next(),
            },
    {
        if self.next_number < self.end_number {
            let n = self.next_number;
            self.next_number = n + 1;
            Some(n)
        } else {
            None
        }
    }

    /// Whether `number` is the presentation's last segment.
    pub fn is_last_segment(&self, number: i32) -> (last: bool)
        ensures
            last == (number == self.last()),
    {
        number == self.last_number
    }

    /// A sample of segment `number`, ready to queue: flagged as the last of
    /// the presentation when it is the final sample of the last segment
    /// (no sample follows it in its segment), else left as it is.
    pub fn finish_sample(&self, number: i32, sample: Sample, more_in_segment: bool) -> (out: Sample)
        ensures
            out.data == sample.data,
            out.pts == sample.pts,
            out.dts == sample.dts,
            out.duration == sample.duration,
            out.timescale == sample.timescale,
            out.is_key == sample.is_key,
            out.is_last == (if number == self.last() && !more_in_segment {
                true
            } else {
                sample.is_last
            }),
    {
        let mut out = sample;
        if self.is_last_segment(number) && !more_in_segment {
            out.is_last = true;
        }
        out
    }

    /// The samples segment `number` adds to the queue: every sample of the
    /// segment, in order, demuxed from the decode time the demuxer reached,
    /// whose decode time then advances by all their durations. Only the
    /// final sample of the presentation's last segment is flagged as last.
    /// `None` (the demuxer left as it was) where the sample table cannot be
    /// read.
    pub fn load_segment(&self, demuxer: &mut Demuxer, number: i32, segment: &[u8]) -> (loaded: Option<Vec<Sample>>)
        requires
            crate::segment::segment_readable(segment@),
            crate::demuxer::segment_samples_readable(segment@, old(demuxer).next_dts() as int),
        ensures
            final(demuxer).ticks_per_second() == old(demuxer).ticks_per_second(),
            match loaded {
                None => {
                    &&& crate::segment::segment_table(segment@) is Err
                    &&& final(demuxer).next_dts() == old(demuxer).next_dts()
                },
                Some(v) => crate::segment::segment_table(segment@) matches Ok((r, c)) && {
                    &&& v@.len() == r.len()
                    &&& forall|k: int|
                        0 <= k < v@.len() ==> crate::demuxer::sample_read_from(
                            #[trigger] v@[k],
                            segment@,
                            c + crate::demuxer::size_sum(r, 0, k),
                            r[k],
                            (old(demuxer).next_dts() + crate::demuxer::duration_sum(r, 0, k)) as i64,
                            old(demuxer).ticks_per_second(),
                        ) && v@[k].is_last == (number == self.last() && k == v@.len() - 1)
                    &&& final(demuxer).next_dts() == old(demuxer).next_dts() + crate::demuxer::duration_sum(
                        r,
                        0,
                        r.len() as int,
                    )
                },
            },
    {
        let mut samples = match demuxer.demux_segment(segment) {
            Some(mut iter) => {
                proof {
                    assert forall|k: int| iter.index() <= k < iter.records().len() implies #[trigger] crate::demuxer::record_readable(
                        iter.records(),
                        iter.index(),
                        k,
                        iter.cursor(),
                        *iter.cumulative_dts as int,
                        iter.data().len() as int,
                    ) by {
                        crate::demuxer::lemma_segment_record_readable(
                            segment@,
                            old(demuxer).next_dts() as int,
                            iter.records(),
                            iter.cursor(),
                            k,
                        );
                    }
                }
                iter.collect_samples()
            },
            None => return None,
        };
        if self.is_last_segment(number) {
            if let Some(mut last) = samples.pop() {
                last.is_last = true;
                samples.push(last);
            }
        }
        Some(samples)
    }

    /// `load_segment` for any segment: `None` where a box ends early or a
    /// sample's data or times fall out of range (the demuxer left as it
    /// was), and otherwise what `load_segment` gives.
    pub fn load_segment_checked(&self, demuxer: &mut Demuxer, number: i32, segment: &[u8]) -> (loaded: Option<Option<Vec<Sample>>>)
        ensures
            final(demuxer).ticks_per_second() == old(demuxer).ticks_per_second(),
            loaded is None <==> !(crate::segment::segment_readable(segment@)
                && crate::demuxer::segment_samples_readable(segment@, old(demuxer).next_dts() as int)),
            loaded is None ==> final(demuxer).next_dts() == old(demuxer).next_dts(),
            loaded matches Some(l) ==> match l {
                None => {
                    &&& crate::segment::segment_table(segment@) is Err
                    &&& final(demuxer).next_dts() == old(demuxer).next_dts()
                },
                Some(v) => crate::segment::segment_table(segment@) matches Ok((r, c)) && {
                    &&& v@.len() == r.len()
                    &&& forall|k: int|
                        0 <= k < v@.len() ==> crate::demuxer::sample_read_from(
                            #[trigger] v@[k],
                            segment@,
                            c + crate::demuxer::size_sum(r, 0, k),
                            r[k],
                            (old(demuxer).next_dts() + crate::demuxer::duration_sum(r, 0, k)) as i64,
                            old(demuxer).ticks_per_second(),
                        ) && v@[k].is_last == (number == self.last() && k == v@.len() - 1)
                    &&& final(demuxer).next_dts() == old(demuxer).next_dts() + crate::demuxer::duration_sum(
                        r,
                        0,
                        r.len() as int,
                    )
                },
            },
    {
        let info = match get_segment_info_checked(segment) {
            None => return None,
            Some(Err(_)) => return Some(self.load_segment(demuxer, number, segment)),
            Some(Ok(info)) => info,
        };
        let ghost r = info.samples@;
        let ghost c = info.mdat_offset as int;
        proof {
            crate::fmp4::lemma_atom_walk_bounds(segment@, crate::segment::mdat_path(), 0, 0);
        }
        let len = segment.len();
        let dts = demuxer.next_decode_time();
        let mut i: usize = 0;
        let mut end: u128 = info.mdat_offset as u128;
        let mut elapsed: i128 = 0;
        while i < info.samples.len()
            invariant
                r == info.samples@,
                crate::segment::segment_table(segment@) == Ok::<
                    (Seq<crate::segment::SampleMetadata>, int),
                    crate::segment::SegmentError,
                >((r, c)),
                len == segment@.len(),
                dts == demuxer.next_dts(),
                demuxer.next_dts() == old(demuxer).next_dts(),
                demuxer.ticks_per_second() == old(demuxer).ticks_per_second(),
                i <= r.len(),
                end == c + crate::demuxer::size_sum(r, 0, i as int),
                end <= len,
                elapsed == crate::demuxer::duration_sum(r, 0, i as int),
                0 <= elapsed,
                dts + elapsed <= i64::MAX,
                forall|k: int|
                    0 <= k < i ==> #[trigger] crate::demuxer::record_readable(r, 0, k, c, dts as int, len as int),
            decreases r.len() - i,
        {
            let md = info.samples[i];
            let next_end = end + md.size as u128;
            let at = dts as i128 + elapsed;
            let next_elapsed = elapsed + md.duration as i128;
            let presented = at + md.cts_offset as i128;
            if next_end > len as u128 || presented > i64::MAX as i128 || presented < i64::MIN as i128
                || dts as i128 + next_elapsed > i64::MAX as i128 {
                assert(!crate::demuxer::record_readable(r, 0, i as int, c, dts as int, len as int));
                proof {
                    if crate::demuxer::segment_samples_readable(segment@, dts as int) {
                        crate::demuxer::lemma_segment_record_readable(segment@, dts as int, r, c, i as int);
                    }
                }
                return None;
            }
            end = next_end;
            elapsed = next_elapsed;
            i = i + 1;
        }
        assert(crate::demuxer::segment_samples_readable(segment@, dts as int));
        Some(self.load_segment(demuxer, number, segment))
    }
}

} // verus!
