use vstd::prelude::*;

use crate::bytes::read_uint;
use crate::fmp4::{get_atom, get_atom_checked, get_atom_offset};

verus! {

/// Why the sample table of a media segment could not be read.
#[derive(Debug, PartialEq, Eq, Structural)]
pub enum SegmentError {
    InvalidSegment,
    NoTfhd,
    NoTrun,
}

/// Size, duration and composition offset of one sample, as the track
/// run (or the track fragment's defaults) gives them.
#[derive(Debug, Clone, Copy, PartialEq, Eq, Structural)]
pub struct SampleMetadata {
    pub size: u32,
    pub duration: u32,
    pub cts_offset: i32,
}

/// The samples of a media segment and where their data starts.
pub struct SegmentInfo {
    pub samples: Vec<SampleMetadata>,
    /// The first byte after the `mdat` box header.
    pub mdat_offset: usize,
}

struct SampleDefaults {
    default_size: u32,
    default_duration: u32,
}

/// Path to the track fragment header.
pub open spec fn tfhd_path() -> Seq<Seq<char>> {
    seq!["moof"@, "traf"@, "tfhd"@]
}

/// Path to the track fragment run.
pub open spec fn trun_path() -> Seq<Seq<char>> {
    seq!["moof"@, "traf"@, "trun"@]
}

/// Path to the media data box.
pub open spec fn mdat_path() -> Seq<Seq<char>> {
    seq!["mdat"@]
}

/// The 24-bit flags field of a full box (bytes 9..12).
pub open spec fn box_flags(b: Seq<u8>) -> u32 {
    crate::bytes::be_value(b.subrange(9, 12)) as u32
}

/// The 32-bit big-endian word at `at`.
pub open spec fn word_at(b: Seq<u8>, at: int) -> u32 {
    crate::bytes::be_value(b.subrange(at, at + 4)) as u32
}

/// 4 when `bit` is set in `flags`, else 0: the size of an optional field.
pub open spec fn field(flags: u32, bit: u32) -> int {
    if flags & bit != 0 {
        4
    } else {
        0
    }
}

/// Where the default sample duration of a `tfhd` box is: after the
/// optional base data offset (8 bytes) and sample description index.
pub open spec fn tfhd_duration_at(flags: u32) -> int {
    16 + 2 * field(flags, 0x01) + field(flags, 0x02)
}

/// Where the default sample size of a `tfhd` box is.
pub open spec fn tfhd_size_at(flags: u32) -> int {
    tfhd_duration_at(flags) + field(flags, 0x08)
}

/// The default sample duration of a `tfhd` box (0 when absent).
pub open spec fn tfhd_default_duration(tfhd: Seq<u8>) -> u32 {
    let flags = box_flags(tfhd);
    if flags & 0x08 != 0 {
        word_at(tfhd, tfhd_duration_at(flags))
    } else {
        0
    }
}

/// The default sample size of a `tfhd` box (0 when absent).
pub open spec fn tfhd_default_size(tfhd: Seq<u8>) -> u32 {
    let flags = box_flags(tfhd);
    if flags & 0x10 != 0 {
        word_at(tfhd, tfhd_size_at(flags))
    } else {
        0
    }
}

/// A `tfhd` box that holds the fields its flags announce.
pub open spec fn tfhd_readable(tfhd: Seq<u8>) -> bool {
    let flags = box_flags(tfhd);
    &&& tfhd.len() >= 12
    &&& (flags & 0x08 != 0 ==> tfhd_duration_at(flags) + 4 <= tfhd.len())
    &&& (flags & 0x10 != 0 ==> tfhd_size_at(flags) + 4 <= tfhd.len())
}

/// Where the first sample record of a `trun` box is: after the sample
/// count and the optional data offset and first-sample flags.
pub open spec fn trun_records_at(flags: u32) -> int {
    16 + field(flags, 0x01) + field(flags, 0x04)
}

/// The size of one sample record of a `trun` box: its optional duration,
/// size, flags and composition offset.
pub open spec fn trun_record_len(flags: u32) -> int {
    field(flags, 0x100) + field(flags, 0x200) + field(flags, 0x400) + field(flags, 0x800)
}

/// How far into a sample record the fields that are read reach (the
/// sample flags are skipped, not read).
pub open spec fn trun_read_extent(flags: u32) -> int {
    if flags & 0x800 != 0 {
        trun_record_len(flags)
    } else if flags & 0x200 != 0 {
        field(flags, 0x100) + 4
    } else if flags & 0x100 != 0 {
        4
    } else {
        0
    }
}

/// The sample count of a `trun` box.
pub open spec fn trun_count(trun: Seq<u8>) -> u32 {
    word_at(trun, 12)
}

/// Sample `k` of a `trun` box: each field read from its record where the
/// flags announce it, else the track fragment's default (0 for the
/// composition offset, which is read as a signed word).
pub open spec fn trun_sample(trun: Seq<u8>, k: int, default_size: u32, default_duration: u32) -> SampleMetadata {
    let flags = box_flags(trun);
    let start = trun_records_at(flags) + k * trun_record_len(flags);
    SampleMetadata {
        duration: if flags & 0x100 != 0 {
            word_at(trun, start)
        } else {
            default_duration
        },
        size: if flags & 0x200 != 0 {
            word_at(trun, start + field(flags, 0x100))
        } else {
            default_size
        },
        cts_offset: if flags & 0x800 != 0 {
            word_at(trun, start + field(flags, 0x100) + field(flags, 0x200) + field(flags, 0x400)) as i32
        } else {
            0
        },
    }
}

/// All samples of a `trun` box, in order.
pub open spec fn trun_samples(trun: Seq<u8>, default_size: u32, default_duration: u32) -> Seq<SampleMetadata> {
    Seq::new(trun_count(trun) as nat, |k: int| trun_sample(trun, k, default_size, default_duration))
}

/// A `trun` box whose sample records hold every field that is read, and
/// whose records end at a position that is a `usize` (the position of
/// each record is counted in `usize` as the records are walked).
pub open spec fn trun_readable(trun: Seq<u8>) -> bool {
    let flags = box_flags(trun);
    let count = trun_count(trun) as int;
    &&& (count == 0 || trun_read_extent(flags) == 0 || trun_records_at(flags) + (count - 1)
        * trun_record_len(flags) + trun_read_extent(flags) <= trun.len())
    &&& trun_records_at(flags) + count * trun_record_len(flags) <= usize::MAX
}

/// Input on which reading the sample table stays within every box it reads.
pub open spec fn segment_readable(segment: Seq<u8>) -> bool {
    &&& crate::fmp4::atom_fits(segment, tfhd_path())
    &&& (crate::fmp4::atom_bytes(segment, tfhd_path()) matches Some(tfhd) ==> {
        &&& tfhd_readable(tfhd)
        &&& crate::fmp4::atom_fits(segment, trun_path())
        &&& (crate::fmp4::atom_bytes(segment, trun_path()) matches Some(trun) ==> (trun.len() >= 17
            ==> trun_readable(trun)))
    })
}

/// What reading the sample table of `segment` gives: the first missing
/// box, or a `trun` too short to hold its count, is an error; else the
/// samples of the `trun` over the defaults of the `tfhd`, and the first
/// byte after the `mdat` header.
pub open spec fn segment_table(segment: Seq<u8>) -> Result<(Seq<SampleMetadata>, int), SegmentError> {
    match crate::fmp4::atom_bytes(segment, tfhd_path()) {
        None => Err(SegmentError::NoTfhd),
        Some(tfhd) => match crate::fmp4::atom_bytes(segment, trun_path()) {
            None => Err(SegmentError::NoTrun),
            Some(trun) => if trun.len() < 17 {
                Err(SegmentError::InvalidSegment)
            } else {
                match crate::fmp4::atom_range(segment, mdat_path()) {
                    None => Err(SegmentError::InvalidSegment),
                    Some((start, end)) => Ok(
                        (
                            trun_samples(trun, tfhd_default_size(tfhd), tfhd_default_duration(tfhd)),
                            start + 8,
                        ),
                    ),
                }
            },
        },
    }
}

/// `info` is what `segment_table` says of `segment`.
pub open spec fn segment_info_matches(segment: Seq<u8>, info: Result<SegmentInfo, SegmentError>) -> bool {
    match info {
        Ok(i) => segment_table(segment) == Ok::<(Seq<SampleMetadata>, int), SegmentError>(
            (i.samples@, i.mdat_offset as int),
        ),
        Err(e) => segment_table(segment) == Err::<(Seq<SampleMetadata>, int), SegmentError>(e),
    }
}


/// Reads the default sample size and duration of the track fragment.
fn get_sample_defaults(segment: &[u8]) -> (defaults: Result<SampleDefaults, SegmentError>)
    requires
        crate::fmp4::atom_fits(segment@, tfhd_path()),
        crate::fmp4::atom_bytes(segment@, tfhd_path()) matches Some(tfhd) ==> tfhd_readable(tfhd),
    ensures
        match defaults {
            Err(e) => e == SegmentError::NoTfhd && crate::fmp4::atom_bytes(segment@, tfhd_path()) is None,
            Ok(d) => crate::fmp4::atom_bytes(segment@, tfhd_path()) matches Some(tfhd)
                && d.default_size == tfhd_default_size(tfhd) && d.default_duration
                == tfhd_default_duration(tfhd),
        },
{
    let path = ["moof", "traf", "tfhd"];
    assert(crate::fmp4::path_views(path@) =~= tfhd_path());
    let tfhd = match get_atom(segment, &path) {
        Some(t) => t,
        None => return Err(SegmentError::NoTfhd),
    };
    let flags = read_uint(tfhd, 9, 3);
    let has_base_data_offset = (flags & 0x01) != 0;
    let has_sample_description_index = (flags & 0x02) != 0;
    let has_default_sample_duration = (flags & 0x08) != 0;
    let has_default_sample_size = (flags & 0x10) != 0;
    let mut cursor: usize = 16;
    if has_base_data_offset {
        cursor = cursor + 8;
    }
    if has_sample_description_index {
        cursor = cursor + 4;
    }
    let mut duration: u32 = 0;
    if has_default_sample_duration {
        duration = read_uint(tfhd, cursor, 4);
        cursor = cursor + 4;
    }
    let mut size: u32 = 0;
    if has_default_sample_size {
        size = read_uint(tfhd, cursor, 4);
    }
    Ok(SampleDefaults { default_size: size, default_duration: duration })
}


/// In a readable `trun`, every record that is read holds the fields read
/// from it.
proof fn lemma_record_fits(trun: Seq<u8>, i: int)
    requires
        trun_readable(trun),
        0 <= i < trun_count(trun),
    ensures
        trun_records_at(box_flags(trun)) + i * trun_record_len(box_flags(trun)) + trun_read_extent(
            box_flags(trun),
        ) <= trun.len() || trun_read_extent(box_flags(trun)) == 0,
{
    let flags = box_flags(trun);
    let per = trun_record_len(flags);
    let count = trun_count(trun) as int;
    assert(0 <= per);
    assert(i * per <= (count - 1) * per) by (nonlinear_arith)
        requires
            0 <= i <= count - 1,
            0 <= per,
    ;
}

/// Reads the sample table of a media segment: the samples of its track
/// run, with the track fragment's defaults where the run leaves a field
/// out, and where the sample data starts (after the `mdat` header).
pub fn get_segment_info(segment: &[u8]) -> (info: Result<SegmentInfo, SegmentError>)
    requires
        segment_readable(segment@),
    ensures
        segment_info_matches(segment@, info),
{
    let defaults = match get_sample_defaults(segment) {
        Ok(d) => d,
        Err(e) => return Err(e),
    };
    let path = ["moof", "traf", "trun"];
    assert(crate::fmp4::path_views(path@) =~= trun_path());
    let trun = match get_atom(segment, &path) {
        Some(t) => t,
        None => return Err(SegmentError::NoTrun),
    };
    if trun.len() < 17 {
        return Err(SegmentError::InvalidSegment);
    }
    let flags = read_uint(trun, 9, 3);
    let sample_count = read_uint(trun, 12, 4);
    let data_offset_present = (flags & 0x01) != 0;
    let first_sample_flags_present = (flags & 0x04) != 0;
    let mut cursor: usize = 16;
    if data_offset_present {
        cursor = cursor + 4;
    }
    if first_sample_flags_present {
        cursor = cursor + 4;
    }
    let sample_duration_present = (flags & 0x0100) != 0;
    let sample_size_present = (flags & 0x0200) != 0;
    let sample_flags_present = (flags & 0x400) != 0;
    let sample_cts_present = (flags & 0x800) != 0;
    let ghost t = trun@;
    let ghost per = trun_record_len(flags);
    let ghost ds = defaults.default_size;
    let ghost dd = defaults.default_duration;
    let mut samples: Vec<SampleMetadata> = Vec::new();
    let mut i: u32 = 0;
    while i < sample_count
        invariant
            t == trun@,
            flags == box_flags(t),
            sample_count == trun_count(t),
            trun_readable(t),
            per == trun_record_len(flags),
            ds == defaults.default_size,
            dd == defaults.default_duration,
            sample_duration_present == (flags & 0x0100 != 0),
            sample_size_present == (flags & 0x0200 != 0),
            sample_flags_present == (flags & 0x0400 != 0),
            sample_cts_present == (flags & 0x0800 != 0),
            i <= sample_count,
            cursor == trun_records_at(flags) + i * per,
            samples@.len() == i,
            forall|k: int| 0 <= k < i ==> samples@[k] == trun_sample(t, k, ds, dd),
        decreases sample_count - i,
    {
        proof {
            lemma_record_fits(t, i as int);
            assert(0 <= per <= 16);
            assert((i + 1) * per <= sample_count * per) by (nonlinear_arith)
                requires
                    0 <= i < sample_count,
                    0 <= per,
            ;
            assert((i + 1) * per == i * per + per) by (nonlinear_arith);
        }
        let mut sample_cursor = cursor;
        let mut duration = defaults.default_duration;
        let mut size = defaults.default_size;
        let mut cts_offset: i32 = 0;
        if sample_duration_present {
            duration = read_uint(trun, sample_cursor, 4);
            sample_cursor = sample_cursor + 4;
        }
        if sample_size_present {
            size = read_uint(trun, sample_cursor, 4);
            sample_cursor = sample_cursor + 4;
        }
        if sample_flags_present {
            sample_cursor = sample_cursor + 4;
        }
        if sample_cts_present {
            cts_offset = read_uint(trun, sample_cursor, 4) as i32;
            sample_cursor = sample_cursor + 4;
        }
        samples.push(SampleMetadata { size, duration, cts_offset });
        cursor = sample_cursor;
        i = i + 1;
    }
    assert(samples@ =~= trun_samples(t, ds, dd));
    assert(segment@.len() == segment.len());
    let mdat = ["mdat"];
    assert(crate::fmp4::path_views(mdat@) =~= mdat_path());
    let mdat_offset = match get_atom_offset(segment, &mdat) {
        Some(o) => o,
        None => return Err(SegmentError::InvalidSegment),
    };
    proof {
        crate::fmp4::lemma_atom_walk_bounds(segment@, mdat_path(), 0, 0);
    }
    Ok(SegmentInfo { samples, mdat_offset: mdat_offset + 8 })
}


/// Tells whether a `tfhd` box holds the fields its flags announce.
fn tfhd_fields_fit(tfhd: &[u8]) -> (fit: bool)
    ensures
        fit == tfhd_readable(tfhd@),
{
    let len = tfhd.len();
    if len < 12 {
        return false;
    }
    let flags = read_uint(tfhd, 9, 3);
    let mut at: usize = 16;
    if flags & 0x01 != 0 {
        at = at + 8;
    }
    if flags & 0x02 != 0 {
        at = at + 4;
    }
    if flags & 0x08 != 0 {
        if at + 4 > len {
            return false;
        }
        at = at + 4;
    }
    if flags & 0x10 != 0 {
        if at + 4 > len {
            return false;
        }
    }
    true
}

/// Tells whether the records of a `trun` box hold every field that is read.
fn trun_records_fit(trun: &[u8]) -> (fit: bool)
    requires
        trun@.len() >= 17,
    ensures
        fit == trun_readable(trun@),
{
    let flags = read_uint(trun, 9, 3);
    let count = read_uint(trun, 12, 4) as u64;
    let mut records_at: u64 = 16;
    if flags & 0x01 != 0 {
        records_at = records_at + 4;
    }
    if flags & 0x04 != 0 {
        records_at = records_at + 4;
    }
    let d: u64 = if flags & 0x100 != 0 { 4 } else { 0 };
    let s: u64 = if flags & 0x200 != 0 { 4 } else { 0 };
    let f: u64 = if flags & 0x400 != 0 { 4 } else { 0 };
    let c: u64 = if flags & 0x800 != 0 { 4 } else { 0 };
    let per = d + s + f + c;
    let extent: u64 = if c != 0 {
        per
    } else if s != 0 {
        d + 4
    } else if d != 0 {
        4
    } else {
        0
    };
    assert(count * per <= 0xffff_ffff * 16) by (nonlinear_arith)
        requires
            count <= 0xffff_ffff,
            per <= 16,
    ;
    if records_at + count * per > usize::MAX as u64 {
        return false;
    }
    if count == 0 || extent == 0 {
        return true;
    }
    assert((count - 1) * per <= 0xffff_ffff * 16) by (nonlinear_arith)
        requires
            1 <= count <= 0xffff_ffff,
            per <= 16,
    ;
    records_at + (count - 1) * per + extent <= trun.len() as u64
}

/// `get_segment_info` where a box it reads ends early too: `None` for such
/// input, and otherwise what `get_segment_info` gives.
pub fn get_segment_info_checked(segment: &[u8]) -> (info: Option<Result<SegmentInfo, SegmentError>>)
    ensures
        match info {
            None => !segment_readable(segment@),
            Some(i) => segment_readable(segment@) && segment_info_matches(segment@, i),
        },
{
    let header = ["moof", "traf", "tfhd"];
    assert(crate::fmp4::path_views(header@) =~= tfhd_path());
    match get_atom_checked(segment, &header) {
        None => return None,
        Some(None) => return Some(get_segment_info(segment)),
        Some(Some(tfhd)) => {
            if !tfhd_fields_fit(tfhd) {
                return None;
            }
        },
    }
    let run = ["moof", "traf", "trun"];
    assert(crate::fmp4::path_views(run@) =~= trun_path());
    match get_atom_checked(segment, &run) {
        None => return None,
        Some(None) => {},
        Some(Some(trun)) => {
            if trun.len() >= 17 && !trun_records_fit(trun) {
                return None;
            }
        },
    }
    Some(get_segment_info(segment))
}

/// The layout of a track run, stated as positions: sample records start
/// after the 16 bytes of header, flags and count, plus 4 bytes for each of
/// the data offset (flag 0x01) and first-sample flags (flag 0x04) that are
/// present; each record holds, in this order and 4 bytes each, the
/// duration (0x100), size (0x200), flags (0x400) and composition offset
/// (0x800) that are present. Sample `k` takes each present field from its
/// record and the track fragment's defaults otherwise (0 for the offset,
/// which is read as a signed word).
pub proof fn lemma_trun_layout(trun: Seq<u8>, k: int, default_size: u32, default_duration: u32)
    ensures
        ({
            let f = box_flags(trun);
            let d: int = if f & 0x100 != 0 { 4 } else { 0 };
            let s: int = if f & 0x200 != 0 { 4 } else { 0 };
            let fl: int = if f & 0x400 != 0 { 4 } else { 0 };
            let c: int = if f & 0x800 != 0 { 4 } else { 0 };
            let first: int = 16 + (if f & 0x01 != 0 { 4int } else { 0int }) + (if f & 0x04 != 0 { 4int } else { 0int });
            let start = first + k * (d + s + fl + c);
            let sample = trun_sample(trun, k, default_size, default_duration);
            &&& trun_records_at(f) == first
            &&& trun_record_len(f) == d + s + fl + c
            &&& sample.duration == (if f & 0x100 != 0 { word_at(trun, start) } else { default_duration })
            &&& sample.size == (if f & 0x200 != 0 { word_at(trun, start + d) } else { default_size })
            &&& sample.cts_offset == (if f & 0x800 != 0 {
                word_at(trun, start + d + s + fl) as i32
            } else {
                0i32
            })
        }),
{
}

/// The samples of a track run are its records, one per announced sample,
/// in order.
pub proof fn lemma_trun_samples_in_order(trun: Seq<u8>, default_size: u32, default_duration: u32)
    ensures
        trun_samples(trun, default_size, default_duration).len() == word_at(trun, 12),
        forall|k: int|
            0 <= k < word_at(trun, 12) ==> #[trigger] trun_samples(trun, default_size, default_duration)[k]
                == trun_sample(trun, k, default_size, default_duration),
{
}

} // verus!
