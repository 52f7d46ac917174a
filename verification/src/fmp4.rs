use std::ops::Range;
use vstd::prelude::*;

use crate::bytes::read_uint;
use crate::text::{str_eq, utf8_lossy};

verus! {

/// The views of the path elements.
pub open spec fn path_views(path: Seq<&str>) -> Seq<Seq<char>> {
    path.map_values(|p: &str| p@)
}

/// The 32-bit big-endian size field of the box header at `offset`.
pub open spec fn box_size_at(data: Seq<u8>, offset: int) -> nat {
    crate::bytes::be_value(data.subrange(offset, offset + 4))
}

/// The type field of the box header at `offset`, decoded as text.
pub open spec fn box_type_at(data: Seq<u8>, offset: int) -> Seq<char> {
    crate::text::lossy_utf8(data.subrange(offset + 4, offset + 8))
}

/// Where the first child of a box of type `t` starts, counted from the
/// start of the box: after the 8-byte header, plus the fixed fields that
/// sample-description and reference boxes put before their children.
pub open spec fn child_offset(t: Seq<char>) -> nat {
    if t == "stsd"@ || t == "dref"@ {
        16
    } else if t == "avc1"@ || t == "hvc1"@ {
        86
    } else if t == "mp4a"@ {
        36
    } else {
        8
    }
}

/// How many bytes are left after `offset`.
pub open spec fn bytes_after(len: int, offset: int) -> nat {
    if offset < len {
        (len - offset) as nat
    } else {
        0
    }
}

/// The walk that looks for `path[idx..]`, scanning the boxes that start at
/// `offset`: a box whose type is the wanted one is entered (or, for the last
/// element, returned as the range from its start to its declared end), any
/// other box is skipped by its size. A zero size or a header that does not
/// fit ends the walk without a result.
pub open spec fn atom_walk(data: Seq<u8>, path: Seq<Seq<char>>, offset: int, idx: int) -> Option<(int, int)>
    decreases bytes_after(data.len() as int, offset),
{
    if offset < 0 || offset + 8 > data.len() || idx < 0 || idx >= path.len() {
        None
    } else {
        let size = box_size_at(data, offset);
        let t = box_type_at(data, offset);
        if size == 0 {
            None
        } else if t == path[idx] {
            if idx == path.len() - 1 {
                Some((offset, offset + size))
            } else {
                atom_walk(data, path, offset + child_offset(t), idx + 1)
            }
        } else {
            atom_walk(data, path, offset + size, idx)
        }
    }
}

/// The byte range of the box reached by following `path` from the start of
/// `data`; `None` for an empty path or when the walk finds nothing.
pub open spec fn atom_range(data: Seq<u8>, path: Seq<Seq<char>>) -> Option<(int, int)> {
    if path.len() == 0 {
        None
    } else {
        atom_walk(data, path, 0, 0)
    }
}

/// Reads the box header at `offset`: its 32-bit size and its type as text.
pub fn get_header_data(data: &[u8], offset: usize) -> (header: Option<(u32, String)>)
    ensures
        match header {
            None => offset + 8 > data@.len(),
            Some((size, t)) => {
                &&& offset + 8 <= data@.len()
                &&& size == box_size_at(data@, offset as int)
                &&& t@ == box_type_at(data@, offset as int)
            },
        },
{
    if offset > data.len() || data.len() - offset < 8 {
        return None;
    }
    let size = read_uint(data, offset, 4);
    let box_type = utf8_lossy(&data[offset + 4..offset + 8]);
    Some((size, box_type))
}

/// The child offset of a box type, as `child_offset` states it.
pub fn box_child_offset(box_type: &str) -> (offset: usize)
    ensures
        offset == child_offset(box_type@),
{
    if str_eq(box_type, "stsd") || str_eq(box_type, "dref") {
        16
    } else if str_eq(box_type, "avc1") || str_eq(box_type, "hvc1") {
        86
    } else if str_eq(box_type, "mp4a") {
        36
    } else {
        8
    }
}

/// The walk of `atom_range`, with the end of the found box given as a
/// 128-bit number (a start inside the data plus a 32-bit size).
fn find_atom(data: &[u8], path: &[&str]) -> (found: Option<(usize, u128)>)
    ensures
        match found {
            None => atom_range(data@, path_views(path@)) is None,
            Some((s, e)) => atom_range(data@, path_views(path@)) == Some((s as int, e as int)),
        },
{
    if path.len() == 0 {
        return None;
    }
    let ghost d = data@;
    let ghost pv = path_views(path@);
    let len = data.len();
    let mut offset: usize = 0;
    let mut path_index: usize = 0;
    while len - offset >= 8
        invariant
            d == data@,
            len == d.len(),
            pv == path_views(path@),
            path_index < path@.len(),
            offset <= len,
            atom_walk(d, pv, offset as int, path_index as int) == atom_range(d, pv),
        decreases len - offset,
    {
        let (size, box_type) = match get_header_data(data, offset) {
            Some(h) => h,
            None => return None,
        };
        if size == 0 {
            return None;
        }
        assert(pv[path_index as int] == path@[path_index as int]@);
        let step: u128 = if str_eq(box_type.as_str(), path[path_index]) {
            if path_index == path.len() - 1 {
                return Some((offset, offset as u128 + size as u128));
            }
            path_index = path_index + 1;
            box_child_offset(box_type.as_str()) as u128
        } else {
            size as u128
        };
        let next = offset as u128 + step;
        assert(atom_walk(d, pv, next as int, path_index as int) == atom_range(d, pv));
        if next > len as u128 {
            // No header fits past the end of the data: the walk stops.
            return None;
        }
        offset = next as usize;
    }
    None
}

/// The end of the box that `path` leads to is a `usize` (always so where
/// the box ends within the data).
pub open spec fn atom_end_representable(data: Seq<u8>, path: Seq<Seq<char>>) -> bool {
    match atom_range(data, path) {
        Some((s, e)) => e <= usize::MAX,
        None => true,
    }
}

/// Finds the byte range of the box that `path` leads to. The range's end
/// is the box's declared end and may pass the end of the data; it must be
/// a `usize`.
pub fn get_atom_range(data: &[u8], path: &[&str]) -> (range: Option<Range<usize>>)
    requires
        atom_end_representable(data@, path_views(path@)),
    ensures
        match range {
            None => atom_range(data@, path_views(path@)) is None,
            Some(r) => atom_range(data@, path_views(path@)) == Some((r.start as int, r.end as int)),
        },
{
    match find_atom(data, path) {
        Some((start, end)) => Some(start..end as usize),
        None => None,
    }
}

/// A range found by the box walk starts at a complete header inside the
/// data and ends after its start.
pub proof fn lemma_atom_walk_bounds(data: Seq<u8>, path: Seq<Seq<char>>, offset: int, idx: int)
    ensures
        atom_walk(data, path, offset, idx) matches Some((s, e)) ==> 0 <= s && s + 8 <= data.len() && s < e,
    decreases bytes_after(data.len() as int, offset),
{
    if !(offset < 0 || offset + 8 > data.len() || idx < 0 || idx >= path.len()) {
        let size = box_size_at(data, offset);
        let t = box_type_at(data, offset);
        if size != 0 {
            if t == path[idx] {
                if idx != path.len() - 1 {
                    lemma_atom_walk_bounds(data, path, offset + child_offset(t), idx + 1);
                }
            } else {
                lemma_atom_walk_bounds(data, path, offset + size, idx);
            }
        }
    }
}

/// The range found for `path` lies within the data (it always starts
/// inside; this says that its declared end does not pass the data's end).
pub open spec fn atom_fits(data: Seq<u8>, path: Seq<Seq<char>>) -> bool {
    match atom_range(data, path) {
        Some((s, e)) => e <= data.len(),
        None => true,
    }
}

/// The bytes of the box that `path` leads to, header included.
pub open spec fn atom_bytes(data: Seq<u8>, path: Seq<Seq<char>>) -> Option<Seq<u8>> {
    match atom_range(data, path) {
        Some((s, e)) => Some(data.subrange(s, e)),
        None => None,
    }
}

/// The bytes of the box that `path` leads to, header included. The box's
/// declared end must lie within the data.
pub fn get_atom<'a>(data: &'a [u8], path: &[&str]) -> (atom: Option<&'a [u8]>)
    requires
        atom_fits(data@, path_views(path@)),
    ensures
        match atom {
            None => atom_bytes(data@, path_views(path@)) is None,
            Some(a) => atom_bytes(data@, path_views(path@)) == Some(a@),
        },
{
    assert(data@.len() == data.len());
    match get_atom_range(data, path) {
        Some(range) => {
            proof {
                lemma_atom_walk_bounds(data@, path_views(path@), 0, 0);
            }
            Some(&data[range])
        },
        None => None,
    }
}

/// `get_atom` where the declared end of the box passes the end of the data
/// too: `None` for such input, and otherwise what `get_atom` gives.
pub fn get_atom_checked<'a>(data: &'a [u8], path: &[&str]) -> (atom: Option<Option<&'a [u8]>>)
    ensures
        match atom {
            None => !atom_fits(data@, path_views(path@)),
            Some(None) => atom_fits(data@, path_views(path@)) && atom_bytes(data@, path_views(path@)) is None,
            Some(Some(a)) => atom_fits(data@, path_views(path@)) && atom_bytes(data@, path_views(path@)) == Some(a@),
        },
{
    match find_atom(data, path) {
        Some((_, end)) => {
            if end > data.len() as u128 {
                return None;
            }
        },
        None => {},
    }
    Some(get_atom(data, path))
}

/// Where the box that `path` leads to starts.
pub fn get_atom_offset(data: &[u8], path: &[&str]) -> (offset: Option<usize>)
    ensures
        match offset {
            None => atom_range(data@, path_views(path@)) is None,
            Some(o) => atom_range(data@, path_views(path@)) matches Some((s, e)) && s == o,
        },
{
    match find_atom(data, path) {
        Some((start, _)) => Some(start),
        None => None,
    }
}

/// The NAL unit type held in the low five bits of a NAL header byte.
pub open spec fn nal_type(header: u8) -> u8 {
    header & 0x1f
}

/// Walks the length-prefixed NAL units that start at `offset` (a 4-byte
/// big-endian length, then the unit whose first byte is its header) and
/// tells whether one of them is an IDR slice (type 5). The walk goes on
/// while more than four bytes remain.
pub open spec fn idr_from(data: Seq<u8>, offset: int) -> bool
    decreases bytes_after(data.len() as int, offset),
{
    if offset < 0 || offset + 4 >= data.len() {
        false
    } else if nal_type(data[offset + 4]) == 5 {
        true
    } else {
        idr_from(data, offset + 4 + crate::bytes::be_value(data.subrange(offset, offset + 4)))
    }
}

/// Tells whether a sample (a chain of 4-byte length-prefixed NAL units)
/// holds an IDR slice, that is whether it is a keyframe.
pub fn sample_has_idr(data: &[u8]) -> (is_key: bool)
    ensures
        is_key == idr_from(data@, 0),
{
    let len = data.len();
    let mut offset: usize = 0;
    while offset < len && len - offset > 4
        invariant
            len == data@.len(),
            offset <= len,
            idr_from(data@, offset as int) == idr_from(data@, 0),
        decreases len - offset,
    {
        let nal_len = read_uint(data, offset, 4);
        let header = data[offset + 4];
        if header & 0x1f == 5 {
            return true;
        }
        let next = offset as u128 + 4 + nal_len as u128;
        assert(idr_from(data@, next as int) == idr_from(data@, 0));
        if next > len as u128 {
            // No NAL header fits past the end of the sample.
            return false;
        }
        offset = next as usize;
    }
    false
}

/// The decoder setup of an H.264 track, read from its sample description.
pub struct CodecConfig {
    /// Bytes in each NAL unit length prefix (usually 4).
    pub nal_length_size: u8,
    pub width: u32,
    pub height: u32,
    /// The sequence parameter set.
    pub sps: Vec<u8>,
    /// The picture parameter set.
    pub pps: Vec<u8>,
    /// The `avcC` payload without its 8-byte box header, as WebCodecs takes it.
    pub avcc_data: Vec<u8>,
}

/// The path to the AVC sample entry of the first track.
pub open spec fn avc1_path() -> Seq<Seq<char>> {
    seq!["moov"@, "trak"@, "mdia"@, "minf"@, "stbl"@, "stsd"@, "avc1"@]
}

/// The path to the AVC decoder configuration box of the first track.
pub open spec fn avcc_path() -> Seq<Seq<char>> {
    avc1_path().push("avcC"@)
}

/// Width and height of a visual sample entry box (header included).
pub open spec fn dims_of(avc1: Seq<u8>) -> (u32, u32) {
    (crate::bytes::be_value(avc1.subrange(32, 34)) as u32, crate::bytes::be_value(avc1.subrange(34, 36)) as u32)
}

/// The length of the first SPS in an `avcC` box (header included).
pub open spec fn sps_len_of(avcc: Seq<u8>) -> int {
    crate::bytes::be_value(avcc.subrange(14, 16)) as int
}

/// The first SPS of an `avcC` box.
pub open spec fn sps_of(avcc: Seq<u8>) -> Seq<u8> {
    avcc.subrange(16, 16 + sps_len_of(avcc))
}

/// The length of the PPS that follows an SPS of `sps_len` bytes.
pub open spec fn pps_len_of(avcc: Seq<u8>, sps_len: int) -> int {
    crate::bytes::be_value(avcc.subrange(sps_len + 17, sps_len + 19)) as int
}

/// The PPS that follows an SPS of `sps_len` bytes.
pub open spec fn pps_of(avcc: Seq<u8>, sps_len: int) -> Seq<u8> {
    avcc.subrange(sps_len + 19, sps_len + 19 + pps_len_of(avcc, sps_len))
}

/// The NAL length size: one more than the low two bits of byte 12.
pub open spec fn nal_length_size_of(avcc: Seq<u8>) -> u8 {
    ((avcc[12] & 3) + 1) as u8
}

/// The `avcC` payload after its header.
pub open spec fn avcc_payload(avcc: Seq<u8>) -> Seq<u8> {
    if avcc.len() > 8 {
        avcc.subrange(8, avcc.len() as int)
    } else {
        Seq::empty()
    }
}

/// An `avcC` box whose parameter-set fields lie within it.
pub open spec fn avcc_readable(avcc: Seq<u8>) -> bool {
    &&& avcc.len() >= 16
    &&& 16 + sps_len_of(avcc) <= avcc.len()
    &&& sps_len_of(avcc) + 19 + pps_len_of(avcc, sps_len_of(avcc)) <= avcc.len()
}

/// Input on which reading the codec setup stays within every box it reads:
/// the sample entry fits and holds its dimensions, and, where it is there,
/// the `avcC` box fits and holds its parameter sets.
pub open spec fn codec_config_readable(data: Seq<u8>) -> bool {
    &&& atom_fits(data, avc1_path())
    &&& (atom_bytes(data, avc1_path()) matches Some(avc1) ==> {
        &&& avc1.len() >= 36
        &&& atom_fits(data, avcc_path())
        &&& (atom_bytes(data, avcc_path()) matches Some(avcc) ==> avcc_readable(avcc))
    })
}

/// Reads width and height from the AVC sample entry.
pub fn get_dims(data: &[u8]) -> (dims: Option<(u32, u32)>)
    requires
        atom_fits(data@, avc1_path()),
        atom_bytes(data@, avc1_path()) matches Some(avc1) ==> avc1.len() >= 36,
    ensures
        match dims {
            None => atom_bytes(data@, avc1_path()) is None,
            Some(d) => atom_bytes(data@, avc1_path()) matches Some(avc1) && d == dims_of(avc1),
        },
{
    let path = ["moov", "trak", "mdia", "minf", "stbl", "stsd", "avc1"];
    assert(path_views(path@) =~= avc1_path());
    let avc1 = match get_atom(data, &path) {
        Some(a) => a,
        None => return None,
    };
    let width = read_uint(avc1, 32, 2);
    let height = read_uint(avc1, 34, 2);
    Some((width, height))
}

/// The SPS of an `avcC` box.
pub fn get_sps(data: &[u8]) -> (sps: Vec<u8>)
    requires
        data@.len() >= 16,
        16 + sps_len_of(data@) <= data@.len(),
    ensures
        sps@ == sps_of(data@),
{
    assert(data@.len() == data.len());
    let sps_len_offset: usize = 14;
    let sps_len_size: usize = 2;
    let sps_len = read_uint(data, sps_len_offset, sps_len_size) as usize;
    let sps_data_offset: usize = sps_len_offset + sps_len_size;
    vstd::slice::slice_to_vec(&data[sps_data_offset..sps_data_offset + sps_len])
}

/// The PPS of an `avcC` box, after an SPS of `sps_len` bytes.
pub fn get_pps(data: &[u8], sps_len: usize) -> (pps: Vec<u8>)
    requires
        sps_len + 19 + pps_len_of(data@, sps_len as int) <= data@.len(),
    ensures
        pps@ == pps_of(data@, sps_len as int),
{
    assert(data@.len() == data.len());
    let pps_len_offset = sps_len + 17;
    let pps_len_size: usize = 2;
    let pps_len = read_uint(data, pps_len_offset, pps_len_size) as usize;
    let pps_data_offset: usize = pps_len_offset + pps_len_size;
    vstd::slice::slice_to_vec(&data[pps_data_offset..pps_data_offset + pps_len])
}

/// The SPS and the PPS of an `avcC` box.
fn get_parameter_sets(avc_c: &[u8]) -> (sets: Option<(Vec<u8>, Vec<u8>)>)
    requires
        avcc_readable(avc_c@),
    ensures
        sets matches Some((sps, pps)) && sps@ == sps_of(avc_c@) && pps@ == pps_of(avc_c@, sps_len_of(avc_c@)),
{
    let sps = get_sps(avc_c);
    proof {
        crate::bytes::lemma_be_value_bound(avc_c@.subrange(14, 16));
        reveal_with_fuel(crate::bytes::pow256, 3);
    }
    let pps = get_pps(avc_c, sps.len());
    Some((sps, pps))
}

/// The NAL length size of an `avcC` box.
fn get_nal_length_size(data: &[u8]) -> (size: u8)
    requires
        data@.len() > 12,
    ensures
        size == nal_length_size_of(data@),
{
    let byte = data[12];
    assert(byte & 0x03 < 4) by (bit_vector);
    let length_size_minus_one = byte & 0x03;
    length_size_minus_one + 1
}

/// What reading the codec setup of `data` gives: `None` where the sample
/// entry or its `avcC` box is missing, else the fields read from them.
pub open spec fn codec_config_matches(data: Seq<u8>, config: Option<CodecConfig>) -> bool {
    match config {
        None => atom_range(data, avc1_path()) is None || atom_range(data, avcc_path()) is None,
        Some(c) => {
            &&& atom_bytes(data, avc1_path()) matches Some(avc1)
            &&& atom_bytes(data, avcc_path()) matches Some(avcc)
            &&& (c.width, c.height) == dims_of(avc1)
            &&& c.sps@ == sps_of(avcc)
            &&& c.pps@ == pps_of(avcc, sps_len_of(avcc))
            &&& c.nal_length_size == nal_length_size_of(avcc)
            &&& c.avcc_data@ == avcc_payload(avcc)
        },
    }
}

/// Tells whether the parameter-set fields of an `avcC` box lie within it.
fn avcc_fields_fit(avcc: &[u8]) -> (fit: bool)
    ensures
        fit == avcc_readable(avcc@),
{
    let len = avcc.len();
    if len < 16 {
        return false;
    }
    let sps_len = read_uint(avcc, 14, 2) as usize;
    proof {
        crate::bytes::lemma_be_value_bound(avcc@.subrange(14, 16));
        reveal_with_fuel(crate::bytes::pow256, 3);
    }
    if 16 + sps_len > len || sps_len + 19 > len {
        return false;
    }
    let pps_len = read_uint(avcc, sps_len + 17, 2) as usize;
    pps_len <= len - (sps_len + 19)
}

/// Reads the H.264 decoder setup of the first track of an initialization
/// segment: dimensions from the `avc1` sample entry, parameter sets and NAL
/// length size from its `avcC` box. `None` where either box is missing.
pub fn get_codec_config(data: &[u8]) -> (config: Option<CodecConfig>)
    requires
        codec_config_readable(data@),
    ensures
        codec_config_matches(data@, config),
{
    let (width, height) = match get_dims(data) {
        Some(d) => d,
        None => return None,
    };
    let path = ["moov", "trak", "mdia", "minf", "stbl", "stsd", "avc1", "avcC"];
    assert(path_views(path@) =~= avcc_path());
    let avc_c = match get_atom(data, &path) {
        Some(a) => a,
        None => return None,
    };
    let (sps, pps) = match get_parameter_sets(avc_c) {
        Some(sets) => sets,
        None => return None,
    };
    let nal_length_size = get_nal_length_size(avc_c);
    let avcc_data = if avc_c.len() > 8 {
        vstd::slice::slice_to_vec(&avc_c[8..avc_c.len()])
    } else {
        Vec::new()
    };
    Some(CodecConfig { sps, pps, width, height, nal_length_size, avcc_data })
}


/// `get_codec_config` where a box it reads ends early too: `None` for such
/// input, and otherwise what `get_codec_config` gives.
pub fn get_codec_config_checked(data: &[u8]) -> (config: Option<Option<CodecConfig>>)
    ensures
        match config {
            None => !codec_config_readable(data@),
            Some(c) => codec_config_readable(data@) && codec_config_matches(data@, c),
        },
{
    let entry = ["moov", "trak", "mdia", "minf", "stbl", "stsd", "avc1"];
    assert(path_views(entry@) =~= avc1_path());
    match get_atom_checked(data, &entry) {
        None => return None,
        Some(None) => return Some(get_codec_config(data)),
        Some(Some(avc1)) => {
            if avc1.len() < 36 {
                return None;
            }
        },
    }
    let config_box = ["moov", "trak", "mdia", "minf", "stbl", "stsd", "avc1", "avcC"];
    assert(path_views(config_box@) =~= avcc_path());
    match get_atom_checked(data, &config_box) {
        None => return None,
        Some(None) => {},
        Some(Some(avcc)) => {
            if !avcc_fields_fit(avcc) {
                return None;
            }
        },
    }
    Some(get_codec_config(data))
}


/// The box that a path leads to is the box whose header sits at the start
/// of its range: that header's type is the path's last element, and the
/// range is as long as that header's (non-zero) size. So reading the
/// header at `get_atom_offset` gives the box that `get_atom_range` spans.
pub proof fn lemma_atom_header(data: Seq<u8>, path: Seq<Seq<char>>, offset: int, idx: int)
    ensures
        atom_walk(data, path, offset, idx) matches Some((s, e)) ==> {
            &&& path.len() > 0
            &&& box_type_at(data, s) == path[path.len() - 1]
            &&& box_size_at(data, s) > 0
            &&& e == s + box_size_at(data, s)
        },
    decreases bytes_after(data.len() as int, offset),
{
    if !(offset < 0 || offset + 8 > data.len() || idx < 0 || idx >= path.len()) {
        let size = box_size_at(data, offset);
        let t = box_type_at(data, offset);
        if size != 0 {
            if t == path[idx] {
                if idx != path.len() - 1 {
                    lemma_atom_header(data, path, offset + child_offset(t), idx + 1);
                }
            } else {
                lemma_atom_header(data, path, offset + size, idx);
            }
        }
    }
}

/// Where children start inside the boxes the player descends through:
/// right after the 8-byte header for plain containers, 16 bytes in for
/// `stsd` and `dref` (version, flags and entry count), 86 bytes in for the
/// visual sample entries `avc1` and `hvc1`, and 36 bytes in for the audio
/// sample entry `mp4a`.
pub proof fn lemma_child_offset_table()
    ensures
        child_offset("moov"@) == 8,
        child_offset("trak"@) == 8,
        child_offset("mdia"@) == 8,
        child_offset("minf"@) == 8,
        child_offset("stbl"@) == 8,
        child_offset("dinf"@) == 8,
        child_offset("moof"@) == 8,
        child_offset("traf"@) == 8,
        child_offset("mvex"@) == 8,
        child_offset("stsd"@) == 16,
        child_offset("dref"@) == 16,
        child_offset("avc1"@) == 86,
        child_offset("hvc1"@) == 86,
        child_offset("mp4a"@) == 36,
{
    reveal_strlit("moov");
    reveal_strlit("trak");
    reveal_strlit("mdia");
    reveal_strlit("minf");
    reveal_strlit("stbl");
    reveal_strlit("dinf");
    reveal_strlit("moof");
    reveal_strlit("traf");
    reveal_strlit("mvex");
    reveal_strlit("stsd");
    reveal_strlit("dref");
    reveal_strlit("avc1");
    reveal_strlit("hvc1");
    reveal_strlit("mp4a");
    assert("moov"@[0] != "stsd"@[0]);
    assert("moov"@[0] != "dref"@[0]);
    assert("moov"@[0] != "avc1"@[0]);
    assert("moov"@[0] != "hvc1"@[0]);
    assert("moov"@[1] != "mp4a"@[1]);
    assert("trak"@[0] != "stsd"@[0]);
    assert("trak"@[0] != "dref"@[0]);
    assert("trak"@[0] != "avc1"@[0]);
    assert("trak"@[0] != "hvc1"@[0]);
    assert("trak"@[0] != "mp4a"@[0]);
    assert("mdia"@[0] != "stsd"@[0]);
    assert("mdia"@[0] != "dref"@[0]);
    assert("mdia"@[0] != "avc1"@[0]);
    assert("mdia"@[0] != "hvc1"@[0]);
    assert("mdia"@[1] != "mp4a"@[1]);
    assert("minf"@[0] != "stsd"@[0]);
    assert("minf"@[0] != "dref"@[0]);
    assert("minf"@[0] != "avc1"@[0]);
    assert("minf"@[0] != "hvc1"@[0]);
    assert("minf"@[1] != "mp4a"@[1]);
    assert("stbl"@[2] != "stsd"@[2]);
    assert("stbl"@[0] != "dref"@[0]);
    assert("stbl"@[0] != "avc1"@[0]);
    assert("stbl"@[0] != "hvc1"@[0]);
    assert("stbl"@[0] != "mp4a"@[0]);
    assert("dinf"@[0] != "stsd"@[0]);
    assert("dinf"@[1] != "dref"@[1]);
    assert("dinf"@[0] != "avc1"@[0]);
    assert("dinf"@[0] != "hvc1"@[0]);
    assert("dinf"@[0] != "mp4a"@[0]);
    assert("moof"@[0] != "stsd"@[0]);
    assert("moof"@[0] != "dref"@[0]);
    assert("moof"@[0] != "avc1"@[0]);
    assert("moof"@[0] != "hvc1"@[0]);
    assert("moof"@[1] != "mp4a"@[1]);
    assert("traf"@[0] != "stsd"@[0]);
    assert("traf"@[0] != "dref"@[0]);
    assert("traf"@[0] != "avc1"@[0]);
    assert("traf"@[0] != "hvc1"@[0]);
    assert("traf"@[0] != "mp4a"@[0]);
    assert("mvex"@[0] != "stsd"@[0]);
    assert("mvex"@[0] != "dref"@[0]);
    assert("mvex"@[0] != "avc1"@[0]);
    assert("mvex"@[0] != "hvc1"@[0]);
    assert("mvex"@[1] != "mp4a"@[1]);
    assert("stsd"@[0] != "dref"@[0]);
    assert("stsd"@[0] != "avc1"@[0]);
    assert("stsd"@[0] != "hvc1"@[0]);
    assert("stsd"@[0] != "mp4a"@[0]);
    assert("dref"@[0] != "stsd"@[0]);
    assert("dref"@[0] != "avc1"@[0]);
    assert("dref"@[0] != "hvc1"@[0]);
    assert("dref"@[0] != "mp4a"@[0]);
    assert("avc1"@[0] != "stsd"@[0]);
    assert("avc1"@[0] != "dref"@[0]);
    assert("avc1"@[0] != "hvc1"@[0]);
    assert("avc1"@[0] != "mp4a"@[0]);
    assert("hvc1"@[0] != "stsd"@[0]);
    assert("hvc1"@[0] != "dref"@[0]);
    assert("hvc1"@[0] != "avc1"@[0]);
    assert("hvc1"@[0] != "mp4a"@[0]);
    assert("mp4a"@[0] != "stsd"@[0]);
    assert("mp4a"@[0] != "dref"@[0]);
    assert("mp4a"@[0] != "avc1"@[0]);
    assert("mp4a"@[0] != "hvc1"@[0]);
}

/// One step of the walk for `path[i]` at the box starting at `o`: with no
/// room for a header, or a box of size 0, nothing is found; a box of the
/// wanted type is the answer for the last path element and is otherwise
/// entered, its children searched from `o + child_offset` for the next
/// element; a box of another type is skipped, the search going on at the
/// next sibling `o + size`.
pub proof fn lemma_walk_step(data: Seq<u8>, path: Seq<Seq<char>>, o: int, i: int)
    requires
        0 <= o,
        0 <= i < path.len(),
    ensures
        o + 8 > data.len() ==> atom_walk(data, path, o, i) is None,
        o + 8 <= data.len() && box_size_at(data, o) == 0 ==> atom_walk(data, path, o, i) is None,
        o + 8 <= data.len() && box_size_at(data, o) != 0 && box_type_at(data, o) == path[i] && i
            == path.len() - 1 ==> atom_walk(data, path, o, i) == Some((o, o + box_size_at(data, o))),
        o + 8 <= data.len() && box_size_at(data, o) != 0 && box_type_at(data, o) == path[i] && i
            < path.len() - 1 ==> atom_walk(data, path, o, i) == atom_walk(data, path, o + child_offset(path[i]), i + 1),
        o + 8 <= data.len() && box_size_at(data, o) != 0 && box_type_at(data, o) != path[i]
            ==> atom_walk(data, path, o, i) == atom_walk(data, path, o + box_size_at(data, o), i),
{
}

/// The walk starts at the first byte with the first path element, and an
/// empty path finds nothing.
pub proof fn lemma_walk_start(data: Seq<u8>, path: Seq<Seq<char>>)
    ensures
        path.len() == 0 ==> atom_range(data, path) is None,
        path.len() > 0 ==> atom_range(data, path) == atom_walk(data, path, 0, 0),
{
}

} // verus!
