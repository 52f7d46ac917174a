use vstd::prelude::*;

use crate::bytes::read_uint;
use crate::fmp4::{get_atom, get_atom_checked, sample_has_idr};
use crate::sample_buffer::Sample;
use crate::segment::{get_segment_info, get_segment_info_checked, SampleMetadata};

verus! {

/// Path to the media header of the first track.
pub open spec fn mdhd_path() -> Seq<Seq<char>> {
    seq!["moov"@, "trak"@, "mdia"@, "mdhd"@]
}

/// Where the timescale field of an `mdhd` box is: version 0 boxes hold
/// 32-bit times before it, other versions 64-bit ones.
pub open spec fn mdhd_timescale_at(mdhd: Seq<u8>) -> int {
    if mdhd[8] == 0 {
        20
    } else {
        28
    }
}

/// An `mdhd` box that holds its version and its timescale.
pub open spec fn mdhd_readable(mdhd: Seq<u8>) -> bool {
    mdhd.len() > 8 && mdhd_timescale_at(mdhd) + 4 <= mdhd.len()
}

/// Input on which reading the timescale stays within the `mdhd` box.
pub open spec fn init_segment_readable(init: Seq<u8>) -> bool {
    &&& crate::fmp4::atom_fits(init, mdhd_path())
    &&& (crate::fmp4::atom_bytes(init, mdhd_path()) matches Some(mdhd) ==> mdhd_readable(mdhd))
}

/// The timescale of the first track, as its `mdhd` box gives it.
pub open spec fn init_timescale(init: Seq<u8>) -> Option<u32> {
    match crate::fmp4::atom_bytes(init, mdhd_path()) {
        Some(mdhd) => Some(crate::segment::word_at(mdhd, mdhd_timescale_at(mdhd))),
        None => None,
    }
}

/// Turns the media segments of one track into timestamped samples. It
/// keeps the decode time reached so far, so that each segment continues
/// the timeline of the one before.
pub struct Demuxer {
    timescale: u32,
    cumulative_dts: i64,
}

/// The samples of one media segment, handed out one at a time. Each one
/// advances the decode time of the demuxer it came from.
pub struct SampleIter<'a> {
    /// The segment's bytes.
    pub segment_data: &'a [u8],
    /// Where the data of the next sample starts.
    pub data_cursor: usize,
    /// How many samples were handed out.
    pub sample_index: usize,
    /// The segment's sample records.
    pub metadata: Vec<SampleMetadata>,
    /// The demuxer's decode time, in ticks, of the next sample.
    pub cumulative_dts: &'a mut i64,
    /// Ticks per second of the track.
    pub timescale: u32,
}

impl Demuxer {
    /// Ticks per second of the track.
    pub closed spec fn ticks_per_second(&self) -> u32 {
        self.timescale
    }

    /// The decode time, in ticks, of the next sample to come.
    pub closed spec fn next_dts(&self) -> i64 {
        self.cumulative_dts
    }

    /// The decode time, in ticks, of the next sample to come.
    pub fn next_decode_time(&self) -> (dts: i64)
        ensures
            dts == self.next_dts(),
    {
        self.cumulative_dts
    }

    /// A demuxer for the track that an initialization segment describes,
    /// at decode time 0; `None` where the segment has no `mdhd` box.
    pub fn from_init_segment(init_segment: &[u8]) -> (demuxer: Option<Demuxer>)
        requires
            init_segment_readable(init_segment@),
        ensures
            match demuxer {
                None => init_timescale(init_segment@) is None,
                Some(d) => init_timescale(init_segment@) == Some(d.ticks_per_second()) && d.next_dts() == 0,
            },
    {
        let path = ["moov", "trak", "mdia", "mdhd"];
        assert(crate::fmp4::path_views(path@) =~= mdhd_path());
        let mdhd = match get_atom(init_segment, &path) {
            Some(m) => m,
            None => return None,
        };
        let version = mdhd[8];
        let timescale_offset: usize = if version == 0 { 20 } else { 28 };
        let timescale = read_uint(mdhd, timescale_offset, 4);
        Some(Demuxer { timescale, cumulative_dts: 0 })
    }

    /// `from_init_segment` where the `mdhd` box ends early too: `None` for
    /// such input, and otherwise what `from_init_segment` gives.
    pub fn from_init_segment_checked(init_segment: &[u8]) -> (demuxer: Option<Option<Demuxer>>)
        ensures
            match demuxer {
                None => !init_segment_readable(init_segment@),
                Some(None) => init_segment_readable(init_segment@) && init_timescale(init_segment@) is None,
                Some(Some(d)) => init_segment_readable(init_segment@) && init_timescale(init_segment@)
                    == Some(d.ticks_per_second()) && d.next_dts() == 0,
            },
    {
        let path = ["moov", "trak", "mdia", "mdhd"];
        assert(crate::fmp4::path_views(path@) =~= mdhd_path());
        match get_atom_checked(init_segment, &path) {
            None => None,
            Some(None) => Some(None),
            Some(Some(mdhd)) => {
                if mdhd.len() <= 8 {
                    return None;
                }
                let at: usize = if mdhd[8] == 0 { 20 } else { 28 };
                if mdhd.len() < at + 4 {
                    return None;
                }
                Some(Demuxer::from_init_segment(init_segment))
            },
        }
    }
}


/// `s` holds what the record `md` describes, its data at `cursor` in
/// `data`, decoded at `dts` ticks of `timescale` (every field but
/// `is_last`).
pub open spec fn sample_read_from(s: Sample, data: Seq<u8>, cursor: int, md: SampleMetadata, dts: i64, timescale: u32) -> bool {
    &&& s.data@ == data.subrange(cursor, cursor + md.size)
    &&& s.dts == dts
    &&& s.pts == dts + md.cts_offset
    &&& s.duration == md.duration
    &&& s.timescale == timescale
    &&& s.is_key == crate::fmp4::idr_from(data.subrange(cursor, cursor + md.size), 0)
}

/// A sample read from a record is presented at its decode time plus the
/// record's signed composition offset (negative offsets move it earlier),
/// lasts the record's duration, and holds the record's bytes at `cursor`.
pub proof fn lemma_sample_timing(s: Sample, data: Seq<u8>, cursor: int, md: SampleMetadata, dts: i64, timescale: u32)
    requires
        sample_read_from(s, data, cursor, md, dts, timescale),
    ensures
        s.dts == dts,
        s.pts - s.dts == md.cts_offset,
        s.duration == md.duration,
        s.timescale == timescale,
        s.data@.len() == md.size as int || cursor + md.size > data.len() || cursor < 0,
{
}

/// `s` is the sample that the record `md` describes, as the demuxer hands
/// it out (not flagged as the presentation's last).
pub open spec fn sample_matches(s: Sample, data: Seq<u8>, cursor: int, md: SampleMetadata, dts: i64, timescale: u32) -> bool {
    sample_read_from(s, data, cursor, md, dts, timescale) && !s.is_last
}

impl<'a> SampleIter<'a> {
    /// The segment's bytes.
    pub open spec fn data(&self) -> Seq<u8> {
        self.segment_data@
    }

    /// The segment's sample records.
    pub open spec fn records(&self) -> Seq<SampleMetadata> {
        self.metadata@
    }

    /// Where the data of the next sample starts.
    pub open spec fn cursor(&self) -> int {
        self.data_cursor as int
    }

    /// How many samples were handed out.
    pub open spec fn index(&self) -> int {
        self.sample_index as int
    }

    /// Ticks per second of the track.
    pub open spec fn ticks_per_second(&self) -> u32 {
        self.timescale
    }

    /// The next sample can be read: its data lies within the segment and
    /// its times stay within 64 bits.
    pub open spec fn next_readable(&self) -> bool {
        0 <= self.index() < self.records().len() ==> {
            let md = self.records()[self.index()];
            &&& self.cursor() + md.size <= self.data().len()
            &&& i64::MIN <= *self.cumulative_dts + md.cts_offset <= i64::MAX
            &&& *self.cumulative_dts + md.duration <= i64::MAX
        }
    }

    /// Tells whether the next sample can be read.
    pub fn next_in_bounds(&self) -> (ok: bool)
        ensures
            ok == self.next_readable(),
    {
        if self.sample_index >= self.metadata.len() {
            return true;
        }
        let md = &self.metadata[self.sample_index];
        let dts = *self.cumulative_dts;
        self.data_cursor <= self.segment_data.len() && md.size as usize <= self.segment_data.len()
            - self.data_cursor && dts as i128 + md.cts_offset as i128 <= i64::MAX as i128 && dts as i128
            + md.cts_offset as i128 >= i64::MIN as i128 && dts as i128 + md.duration as i128
            <= i64::MAX as i128
    }

    /// Hands out the next sample: its data, its decode time (the decode
    /// time reached so far), its presentation time (decode time plus the
    /// composition offset) and whether it is a keyframe; the decode time
    /// then advances by the sample's duration. `None` after the last one.
    pub fn next(&mut self) -> (sample: Option<Sample>)
        requires
            old(self).next_readable(),
        ensures
            final(self).data() == old(self).data(),
            final(self).records() == old(self).records(),
            final(self).ticks_per_second() == old(self).ticks_per_second(),
            *final(final(self).cumulative_dts) == *final(old(self).cumulative_dts),
            match sample {
                None => {
                    &&& old(self).index() >= old(self).records().len()
                    &&& final(self).index() == old(self).index()
                    &&& final(self).cursor() == old(self).cursor()
                    &&& *final(self).cumulative_dts == *old(self).cumulative_dts
                },
                Some(s) => {
                    let md = old(self).records()[old(self).index()];
                    &&& 0 <= old(self).index() < old(self).records().len()
                    &&& sample_matches(s, old(self).data(), old(self).cursor(), md, *old(self).cumulative_dts, old(self).ticks_per_second())
                    &&& s.dts == *old(self).cumulative_dts
                    &&& s.pts - s.dts == md.cts_offset
                    &&& s.duration == md.duration
                    &&& final(self).index() == old(self).index() + 1
                    &&& final(self).cursor() == old(self).cursor() + md.size
                    &&& *final(self).cumulative_dts == *old(self).cumulative_dts + md.duration
                },
            },
    {
        if self.sample_index >= self.metadata.len() {
            return None;
        }
        assert(self.segment_data@.len() == self.segment_data.len());
        let size = self.metadata[self.sample_index].size;
        let duration = self.metadata[self.sample_index].duration;
        let cts_offset = self.metadata[self.sample_index].cts_offset;
        let end = self.data_cursor + size as usize;
        let data = vstd::slice::slice_to_vec(&self.segment_data[self.data_cursor..end]);
        let dts = *self.cumulative_dts;
        let pts = dts + cts_offset as i64;
        let is_key = sample_has_idr(data.as_slice());
        *self.cumulative_dts = dts + duration as i64;
        self.data_cursor = end;
        self.sample_index = self.sample_index + 1;
        Some(Sample { data, dts, duration, pts, timescale: self.timescale, is_key, is_last: false })
    }
}

impl Demuxer {
    /// Starts handing out the samples of a media segment, from the decode
    /// time the demuxer reached; the decode time the iterator reaches is
    /// the demuxer's once the iterator is done. `None` where the sample
    /// table cannot be read.
    pub fn demux_segment<'a>(&'a mut self, segment_data: &'a [u8]) -> (iter: Option<SampleIter<'a>>)
        requires
            crate::segment::segment_readable(segment_data@),
        ensures
            final(self).ticks_per_second() == old(self).ticks_per_second(),
            match iter {
                None => {
                    &&& crate::segment::segment_table(segment_data@) is Err
                    &&& final(self).next_dts() == old(self).next_dts()
                },
                Some(it) => {
                    &&& crate::segment::segment_table(segment_data@) == Ok::<
                        (Seq<SampleMetadata>, int),
                        crate::segment::SegmentError,
                    >((it.records(), it.cursor()))
                    &&& it.data() == segment_data@
                    &&& it.index() == 0
                    &&& it.ticks_per_second() == old(self).ticks_per_second()
                    &&& *it.cumulative_dts == old(self).next_dts()
                    &&& final(self).next_dts() == *final(it.cumulative_dts)
                },
            },
    {
        let info = match get_segment_info(segment_data) {
            Ok(i) => i,
            Err(_) => return None,
        };
        Some(
            SampleIter {
                segment_data,
                timescale: self.timescale,
                metadata: info.samples,
                data_cursor: info.mdat_offset,
                sample_index: 0,
                cumulative_dts: &mut self.cumulative_dts,
            },
        )
    }
}


impl<'a> SampleIter<'a> {
    /// Whether a sample is left to hand out.
    pub fn has_more(&self) -> (more: bool)
        ensures
            more == (self.index() < self.records().len()),
    {
        self.sample_index < self.metadata.len()
    }
}

impl Demuxer {
    /// `demux_segment` where a box of the segment ends early too: `None`
    /// for such input (the demuxer is left as it was), and otherwise what
    /// `demux_segment` gives.
    pub fn demux_segment_checked<'a>(&'a mut self, segment_data: &'a [u8]) -> (iter: Option<Option<SampleIter<'a>>>)
        ensures
            final(self).ticks_per_second() == old(self).ticks_per_second(),
            match iter {
                None => {
                    &&& !crate::segment::segment_readable(segment_data@)
                    &&& final(self).next_dts() == old(self).next_dts()
                },
                Some(None) => {
                    &&& crate::segment::segment_readable(segment_data@)
                    &&& crate::segment::segment_table(segment_data@) is Err
                    &&& final(self).next_dts() == old(self).next_dts()
                },
                Some(Some(it)) => {
                    &&& crate::segment::segment_readable(segment_data@)
                    &&& crate::segment::segment_table(segment_data@) == Ok::<
                        (Seq<SampleMetadata>, int),
                        crate::segment::SegmentError,
                    >((it.records(), it.cursor()))
                    &&& it.data() == segment_data@
                    &&& it.index() == 0
                    &&& it.ticks_per_second() == old(self).ticks_per_second()
                    &&& *it.cumulative_dts == old(self).next_dts()
                    &&& final(self).next_dts() == *final(it.cumulative_dts)
                },
            },
    {
        match get_segment_info_checked(segment_data) {
            None => None,
            Some(_) => Some(self.demux_segment(segment_data)),
        }
    }
}


/// The total duration of the records `from..to`.
pub open spec fn duration_sum(records: Seq<SampleMetadata>, from: int, to: int) -> int
    decreases to - from,
{
    if to <= from {
        0
    } else {
        duration_sum(records, from, to - 1) + records[to - 1].duration
    }
}

/// The total size of the records `from..to`.
pub open spec fn size_sum(records: Seq<SampleMetadata>, from: int, to: int) -> int
    decreases to - from,
{
    if to <= from {
        0
    } else {
        size_sum(records, from, to - 1) + records[to - 1].size
    }
}

/// Record `k` of `r`, counted from record `from` whose data starts at
/// `cursor` and which is decoded at `dts`, lies within `len` bytes and has
/// times within 64 bits.
pub open spec fn record_readable(r: Seq<SampleMetadata>, from: int, k: int, cursor: int, dts: int, len: int) -> bool {
    &&& cursor + size_sum(r, from, k + 1) <= len
    &&& i64::MIN <= dts + duration_sum(r, from, k) + r[k].cts_offset <= i64::MAX
    &&& dts + duration_sum(r, from, k + 1) <= i64::MAX
}

impl<'a> SampleIter<'a> {
    /// Every sample left can be read: its data lies within the segment and
    /// its times, counted from the decode time reached so far, stay within
    /// 64 bits.
    pub open spec fn remaining_readable(&self) -> bool {
        forall|k: int|
            self.index() <= k < self.records().len() ==> #[trigger] record_readable(
                self.records(),
                self.index(),
                k,
                self.cursor(),
                *self.cumulative_dts as int,
                self.data().len() as int,
            )
    }

    /// Hands out every sample left, in order. Sample `k` of the result is
    /// decoded at the decode time reached so far plus the durations of the
    /// samples before it, and its data follows theirs; the decode time
    /// ends advanced by the durations of all of them.
    pub fn collect_samples(&mut self) -> (samples: Vec<Sample>)
        requires
            old(self).remaining_readable(),
            old(self).index() <= old(self).records().len(),
        ensures
            final(self).data() == old(self).data(),
            final(self).records() == old(self).records(),
            final(self).index() == old(self).records().len(),
            *final(final(self).cumulative_dts) == *final(old(self).cumulative_dts),
            samples@.len() == old(self).records().len() - old(self).index(),
            forall|k: int| 0 <= k < samples@.len() ==> sample_matches(
                #[trigger] samples@[k],
                old(self).data(),
                old(self).cursor() + size_sum(old(self).records(), old(self).index(), old(self).index() + k),
                old(self).records()[old(self).index() + k],
                (*old(self).cumulative_dts + duration_sum(old(self).records(), old(self).index(), old(self).index() + k)) as i64,
                old(self).ticks_per_second(),
            ),
            *final(self).cumulative_dts == *old(self).cumulative_dts + duration_sum(
                old(self).records(),
                old(self).index(),
                old(self).records().len() as int,
            ),
            forall|k: int|
                0 <= k < samples@.len() ==> (#[trigger] samples@[k]).pts - samples@[k].dts == old(
                    self,
                ).records()[old(self).index() + k].cts_offset,
    {
        let ghost r = self.records();
        let ghost data = self.data();
        let ghost ts = self.ticks_per_second();
        let ghost i0 = self.index();
        let ghost c0 = self.cursor();
        let ghost d0 = *self.cumulative_dts as int;
        let mut samples: Vec<Sample> = Vec::new();
        while self.sample_index < self.metadata.len()
            invariant
                self.data() == data,
                data == old(self).data(),
                r == self.records(),
                r == old(self).records(),
                i0 == old(self).index(),
                c0 == old(self).cursor(),
                d0 == *old(self).cumulative_dts,
                ts == old(self).ticks_per_second(),
                self.ticks_per_second() == ts,
                *final(self.cumulative_dts) == *final(old(self).cumulative_dts),
                i0 <= self.index() <= r.len(),
                samples@.len() == self.index() - i0,
                self.cursor() == c0 + size_sum(r, i0, self.index()),
                *self.cumulative_dts == d0 + duration_sum(r, i0, self.index()),
                forall|k: int| i0 <= k < r.len() ==> #[trigger] record_readable(r, i0, k, c0, d0, data.len() as int),
                forall|k: int| 0 <= k < samples@.len() ==> sample_matches(
                    #[trigger] samples@[k],
                    data,
                    c0 + size_sum(r, i0, i0 + k),
                    r[i0 + k],
                    (d0 + duration_sum(r, i0, i0 + k)) as i64,
                    ts,
                ),
            decreases r.len() - self.index(),
        {
            let ghost j = self.index();
            assert(record_readable(r, i0, j, c0, d0, data.len() as int));
            if let Some(s) = self.next() {
                samples.push(s);
            }
        }
        samples
    }
}

/// The sample records of a readable sample table.
pub open spec fn table_records(segment: Seq<u8>) -> Seq<SampleMetadata> {
    match crate::segment::segment_table(segment) {
        Ok((r, c)) => r,
        Err(_) => Seq::empty(),
    }
}

/// Where the sample data of a readable sample table starts.
pub open spec fn table_data_start(segment: Seq<u8>) -> int {
    match crate::segment::segment_table(segment) {
        Ok((r, c)) => c,
        Err(_) => 0,
    }
}

/// Every sample of `segment`, demuxed from decode time `dts`, can be read:
/// its data lies within the segment and its times stay within 64 bits.
pub open spec fn segment_samples_readable(segment: Seq<u8>, dts: int) -> bool {
    forall|k: int|
        0 <= k < table_records(segment).len() ==> #[trigger] record_readable(
            table_records(segment),
            0,
            k,
            table_data_start(segment),
            dts,
            segment.len() as int,
        )
}

/// What `segment_samples_readable` says of one record.
pub proof fn lemma_segment_record_readable(segment: Seq<u8>, dts: int, r: Seq<SampleMetadata>, c: int, k: int)
    requires
        segment_samples_readable(segment, dts),
        crate::segment::segment_table(segment) == Ok::<(Seq<SampleMetadata>, int), crate::segment::SegmentError>((r, c)),
        0 <= k < r.len(),
    ensures
        record_readable(r, 0, k, c, dts, segment.len() as int),
{
    assert(table_records(segment) == r);
    assert(table_data_start(segment) == c);
    assert(record_readable(table_records(segment), 0, k, table_data_start(segment), dts, segment.len() as int));
}

/// Sums of durations over the same first `n` records agree.
proof fn lemma_duration_sum_same_prefix(a: Seq<SampleMetadata>, b: Seq<SampleMetadata>, n: int)
    requires
        0 <= n <= a.len(),
        n <= b.len(),
        forall|j: int| 0 <= j < n ==> a[j] == b[j],
    ensures
        duration_sum(a, 0, n) == duration_sum(b, 0, n),
    decreases n,
{
    if n > 0 {
        lemma_duration_sum_same_prefix(a, b, n - 1);
    }
}

/// Demuxing segments one after another keeps a single timeline: sample `k`
/// of the second segment is decoded when sample `first.len() + k` would be
/// in one segment holding both sample tables.
pub proof fn lemma_timeline_concatenates(first: Seq<SampleMetadata>, second: Seq<SampleMetadata>, k: int)
    requires
        0 <= k <= second.len(),
    ensures
        duration_sum(first, 0, first.len() as int) + duration_sum(second, 0, k) == duration_sum(
            first + second,
            0,
            first.len() + k,
        ),
    decreases k,
{
    let both = first + second;
    if k == 0 {
        lemma_duration_sum_same_prefix(first, both, first.len() as int);
    } else {
        lemma_timeline_concatenates(first, second, k - 1);
        assert(both[first.len() + k - 1] == second[k - 1]);
    }
}

} // verus!
