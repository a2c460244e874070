use vstd::prelude::*;
use crate::error::FontError;
use crate::reader::{FontReader, u8s_at, u16_at, u16s_at, u32_at};
use crate::tables::offset::OffsetTable;

verus! {

/// The platform an encoding record is meant for.
#[derive(Clone, Copy, Debug, PartialEq, Eq, Structural)]
pub enum CmapPlatform {
    Unicode,
    Macintosh,
    Microsoft,
}

/// The `cmap` index header.
#[derive(Clone, Copy, Debug, PartialEq, Eq, Structural)]
pub struct CmapIndex {
    pub version: u16,
    pub subtable_count: u16,
}

/// One encoding record: a platform and where its subtable starts within `cmap`.
#[derive(Clone, Copy, Debug, PartialEq, Eq, Structural)]
pub struct CmapEncoding {
    pub platform_id: CmapPlatform,
    pub platform_specific_id: u16,
    pub offset: u32,
}

/// Format 0: one byte-sized glyph index for each of 256 character codes.
#[derive(Clone, Debug)]
pub struct CmapFormat0 {
    pub format: u16,
    pub length: u16,
    pub language_code: u16,
    pub glyph_index_array: Vec<u8>,
}

/// Format 2: high-byte mapping; only the 256 subheader keys are decoded.
#[derive(Clone, Debug)]
pub struct CmapFormat2 {
    pub format: u16,
    pub length: u16,
    pub language_code: u16,
    pub sub_header_keys: Vec<u16>,
}

/// One segment of a format 4 subtable.
#[derive(Clone, Copy, Debug, PartialEq, Eq, Structural)]
pub struct CmapFormat4Segment {
    pub id_range_offset: u16,
    pub start_code: u16,
    pub end_code: u16,
    pub id_delta: u16,
}

/// Format 4: segment mapping to delta values.
#[derive(Clone, Debug)]
pub struct CmapFormat4 {
    pub format: u16,
    pub length: u16,
    pub language_code: u16,
    pub segcount_x2: u16,
    pub search_range: u16,
    pub entry_selector: u16,
    pub range_shift: u16,
    pub segments: Vec<CmapFormat4Segment>,
}

/// Format 6: a trimmed table of glyph indices for a dense range of codes.
#[derive(Clone, Debug)]
pub struct CmapFormat6 {
    pub format: u16,
    pub length: u16,
    pub language_code: u16,
    pub first_code: u16,
    pub entry_count: u16,
    pub glyph_index_array: Vec<u16>,
}

/// A run of character codes mapped to consecutive glyphs (formats 8 and 12).
#[derive(Clone, Copy, Debug, PartialEq, Eq, Structural)]
pub struct CmapFormat80Group {
    pub start_char_code: u32,
    pub end_char_code: u32,
    pub start_glyph_code: u32,
}

/// Format 8: mixed 16-bit and 32-bit coverage.
#[derive(Clone, Debug)]
pub struct CmapFormat80 {
    pub format: u16,
    pub length: u32,
    pub language_code: u32,
    /// 8192 bytes, one bit per 16-bit value.
    pub is_32: Vec<u8>,
    pub n_groups: u32,
    pub groups: Vec<CmapFormat80Group>,
}

/// Format 10: a trimmed array over 32-bit codes.
#[derive(Clone, Debug)]
pub struct CmapFormat100 {
    pub format: u16,
    pub length: u32,
    pub language_code: u32,
    pub start_char_code: u32,
    pub num_chars: u32,
    pub glyphs: Vec<u16>,
}

/// Format 12: segmented coverage.
#[derive(Clone, Debug)]
pub struct CmapFormat120 {
    pub format: u16,
    pub length: u32,
    pub language_code: u32,
    pub n_groups: u32,
    pub groups: Vec<CmapFormat80Group>,
}

/// The subtable that a `cmap` holds, one variant per format.
#[derive(Clone, Debug)]
pub enum CmapFormatTable {
    Format0(CmapFormat0),
    Format2(CmapFormat2),
    Format4(CmapFormat4),
    Format6(CmapFormat6),
    Format80(CmapFormat80),
    Format100(CmapFormat100),
    Format120(CmapFormat120),
}

/// The decoded `cmap` table.
#[derive(Clone, Debug)]
pub struct Cmap {
    pub index: CmapIndex,
    pub encodings: Vec<CmapEncoding>,
    pub format_table: CmapFormatTable,
}

/// The group whose 12 bytes start at `p`.
pub open spec fn group_at(s: Seq<u8>, p: int) -> CmapFormat80Group {
    CmapFormat80Group {
        start_char_code: u32_at(s, p),
        end_char_code: u32_at(s, p + 4),
        start_glyph_code: u32_at(s, p + 8),
    }
}

/// The `n` groups at `p`.
pub open spec fn groups_at(s: Seq<u8>, p: int, n: nat) -> Seq<CmapFormat80Group> {
    Seq::new(n, |i: int| group_at(s, p + 12 * i))
}

/// The platform that `id` names, if it is a supported one.
pub open spec fn platform_of(id: u16) -> Option<CmapPlatform> {
    if id == 0 {
        Some(CmapPlatform::Unicode)
    } else if id == 1 {
        Some(CmapPlatform::Macintosh)
    } else if id == 3 {
        Some(CmapPlatform::Microsoft)
    } else {
        None
    }
}

/// The first `k` encoding records at `p`, or the first failure met while reading them.
pub open spec fn encodings_prefix(s: Seq<u8>, p: int, k: nat) -> Result<Seq<CmapEncoding>, FontError>
    decreases k,
{
    if k == 0 {
        Ok(Seq::empty())
    } else {
        match encodings_prefix(s, p, (k - 1) as nat) {
            Err(e) => Err(e),
            Ok(es) => {
                let q = p + 8 * (k - 1);
                if q + 2 > s.len() {
                    Err(FontError::UnexpectedEndOfFile)
                } else {
                    match platform_of(u16_at(s, q)) {
                        None => Err(FontError::UnsupportedCmapPlatform(u16_at(s, q))),
                        Some(platform) => if q + 8 > s.len() {
                            Err(FontError::UnexpectedEndOfFile)
                        } else {
                            Ok(es.push(CmapEncoding {
                                platform_id: platform,
                                platform_specific_id: u16_at(s, q + 2),
                                offset: u32_at(s, q + 4),
                            }))
                        },
                    }
                }
            },
        }
    }
}

/// Once reading encoding records has failed, reading more fails the same way.
proof fn lemma_encodings_error_persists(s: Seq<u8>, p: int, k: nat, n: nat)
    requires
        k <= n,
        encodings_prefix(s, p, k) is Err,
    ensures
        encodings_prefix(s, p, n) == encodings_prefix(s, p, k),
    decreases n - k,
{
    if k < n {
        lemma_encodings_error_persists(s, p, k, (n - 1) as nat);
    }
}

/// Reads `count` encoding records at the cursor; platform 2 and platforms above 3
/// are refused as soon as their id is read.
pub fn cmap_encoding_tables(r: &mut FontReader, count: u16) -> (res: Result<Vec<CmapEncoding>, FontError>)
    ensures
        final(r).data@ == old(r).data@,
        match res {
            Ok(v) => encodings_prefix(old(r).data@, old(r).pos as int, count as nat)
                == Ok::<Seq<CmapEncoding>, FontError>(v@)
                && final(r).pos == old(r).pos + 8 * count,
            Err(e) => encodings_prefix(old(r).data@, old(r).pos as int, count as nat)
                == Err::<Seq<CmapEncoding>, FontError>(e),
        },
{
    let ghost s = r.data@;
    let ghost p = r.pos as int;
    let mut encodings: Vec<CmapEncoding> = Vec::new();
    let mut k: u16 = 0;
    while k < count
        invariant
            s == old(r).data@,
            p == old(r).pos,
            r.data@ == s,
            k <= count,
            r.pos == p + 8 * k,
            encodings_prefix(s, p, k as nat) == Ok::<Seq<CmapEncoding>, FontError>(encodings@),
        decreases count - k,
    {
        let id = match r.get_uint16() {
            Ok(v) => v,
            Err(e) => {
                proof {
                    lemma_encodings_error_persists(s, p, (k + 1) as nat, count as nat);
                }
                return Err(e);
            },
        };
        let platform_id = match id {
            0 => CmapPlatform::Unicode,
            1 => CmapPlatform::Macintosh,
            3 => CmapPlatform::Microsoft,
            _ => {
                proof {
                    lemma_encodings_error_persists(s, p, (k + 1) as nat, count as nat);
                }
                return Err(FontError::UnsupportedCmapPlatform(id));
            },
        };
        let platform_specific_id = match r.get_uint16() {
            Ok(v) => v,
            Err(e) => {
                proof {
                    lemma_encodings_error_persists(s, p, (k + 1) as nat, count as nat);
                }
                return Err(e);
            },
        };
        let offset = match r.get_uint32() {
            Ok(v) => v,
            Err(e) => {
                proof {
                    lemma_encodings_error_persists(s, p, (k + 1) as nat, count as nat);
                }
                return Err(e);
            },
        };
        encodings.push(CmapEncoding { platform_id, platform_specific_id, offset });
        assert(encodings_prefix(s, p, (k + 1) as nat)
            == Ok::<Seq<CmapEncoding>, FontError>(encodings@));
        k = k + 1;
    }
    Ok(encodings)
}

/// Number of bytes that a subtable of format `format` takes after its format
/// field at `p`, as far as its own counts say.
pub open spec fn subtable_size(s: Seq<u8>, p: int, format: u16) -> int {
    let q = p + 2;
    if format == 0 {
        260
    } else if format == 2 {
        516
    } else if format == 4 {
        14 + 8 * (u16_at(s, q + 4) / 2)
    } else if format == 6 {
        8 + 2 * u16_at(s, q + 6)
    } else if format == 8 {
        8206 + 12 * u32_at(s, q + 8202)
    } else if format == 10 {
        18 + 2 * format10_glyph_count(u32_at(s, q + 2))
    } else {
        14 + 12 * u32_at(s, q + 10)
    }
}

/// Number of glyph ids in a format 10 subtable of `length` bytes.
pub open spec fn format10_glyph_count(length: u32) -> int {
    if length >= 20 { (length - 20) / 2 } else { 0 }
}

/// Where a subtable whose format field is at `p` ends.
pub open spec fn subtable_end(s: Seq<u8>, p: int) -> int {
    p + 2 + subtable_size(s, p, u16_at(s, p))
}

/// Whether `format` is one of the supported subtable formats.
pub open spec fn supported_format(format: u16) -> bool {
    format == 0 || format == 2 || format == 4 || format == 6 || format == 8 || format == 10
        || format == 12
}

/// The segment `i` of a format 4 subtable with `n` segments whose arrays start at `q`.
pub open spec fn segment_at(s: Seq<u8>, q: int, n: int, i: int) -> CmapFormat4Segment {
    CmapFormat4Segment {
        end_code: u16_at(s, q + 2 * i),
        start_code: u16_at(s, q + 2 * n + 2 + 2 * i),
        id_delta: u16_at(s, q + 4 * n + 2 + 2 * i),
        id_range_offset: u16_at(s, q + 6 * n + 2 + 2 * i),
    }
}

/// Whether `t` is the subtable whose format field is at `p`; `q` is where its
/// fields after the format start.
pub open spec fn subtable_matches(s: Seq<u8>, p: int, t: CmapFormatTable) -> bool {
    let q = p + 2;
    match t {
        CmapFormatTable::Format0(x) => u16_at(s, p) == 0 && x.format == 0
            && x.length == u16_at(s, q) && x.language_code == u16_at(s, q + 2)
            && x.glyph_index_array@ == u8s_at(s, q + 4, 256),
        CmapFormatTable::Format2(x) => u16_at(s, p) == 2 && x.format == 2
            && x.length == u16_at(s, q) && x.language_code == u16_at(s, q + 2)
            && x.sub_header_keys@ == u16s_at(s, q + 4, 256),
        CmapFormatTable::Format4(x) => u16_at(s, p) == 4 && x.format == 4
            && x.length == u16_at(s, q) && x.language_code == u16_at(s, q + 2)
            && x.segcount_x2 == u16_at(s, q + 4) && x.search_range == u16_at(s, q + 6)
            && x.entry_selector == u16_at(s, q + 8) && x.range_shift == u16_at(s, q + 10)
            && x.segments@ == Seq::new(
                (x.segcount_x2 / 2) as nat,
                |i: int| segment_at(s, q + 12, (x.segcount_x2 / 2) as int, i),
            ),
        CmapFormatTable::Format6(x) => u16_at(s, p) == 6 && x.format == 6
            && x.length == u16_at(s, q) && x.language_code == u16_at(s, q + 2)
            && x.first_code == u16_at(s, q + 4) && x.entry_count == u16_at(s, q + 6)
            && x.glyph_index_array@ == u16s_at(s, q + 8, x.entry_count as nat),
        CmapFormatTable::Format80(x) => u16_at(s, p) == 8 && x.format == 8
            && x.length == u32_at(s, q + 2) && x.language_code == u32_at(s, q + 6)
            && x.is_32@ == u8s_at(s, q + 10, 8192) && x.n_groups == u32_at(s, q + 8202)
            && x.groups@ == groups_at(s, q + 8206, x.n_groups as nat),
        CmapFormatTable::Format100(x) => u16_at(s, p) == 10 && x.format == 10
            && x.length == u32_at(s, q + 2) && x.language_code == u32_at(s, q + 6)
            && x.start_char_code == u32_at(s, q + 10) && x.num_chars == u32_at(s, q + 14)
            && x.glyphs@ == u16s_at(s, q + 18, format10_glyph_count(x.length) as nat),
        CmapFormatTable::Format120(x) => u16_at(s, p) == 12 && x.format == 12
            && x.length == u32_at(s, q + 2) && x.language_code == u32_at(s, q + 6)
            && x.n_groups == u32_at(s, q + 10)
            && x.groups@ == groups_at(s, q + 14, x.n_groups as nat),
    }
}

/// What decoding a subtable whose format field is at `p` gives, as an outcome:
/// `None` when it decodes, else the error.
pub open spec fn subtable_error(s: Seq<u8>, p: int) -> Option<FontError> {
    if p + 2 > s.len() {
        Some(FontError::UnexpectedEndOfFile)
    } else if !supported_format(u16_at(s, p)) {
        Some(FontError::UnsupportedCmapFormat(u16_at(s, p)))
    } else if p + 2 + subtable_size(s, p, u16_at(s, p)) > s.len() {
        Some(FontError::UnexpectedEndOfFile)
    } else {
        None
    }
}

pub fn read_cmap_format0(r: &mut FontReader) -> (res: Result<CmapFormat0, FontError>)
    ensures
        final(r).data@ == old(r).data@,
        match res {
            Ok(x) => old(r).has(260) && final(r).pos == old(r).pos + 260 && x.format == 0
                && x.length == u16_at(old(r).data@, old(r).pos as int)
                && x.language_code == u16_at(old(r).data@, old(r).pos + 2)
                && x.glyph_index_array@ == u8s_at(old(r).data@, old(r).pos + 4, 256),
            Err(e) => !old(r).has(260) && e == FontError::UnexpectedEndOfFile,
        },
{
    let length = r.get_uint16()?;
    let language_code = r.get_uint16()?;
    let glyph_index_array = r.get_uint8_array(256)?;
    Ok(CmapFormat0 { format: 0, length, language_code, glyph_index_array })
}

pub fn read_cmap_format2(r: &mut FontReader) -> (res: Result<CmapFormat2, FontError>)
    ensures
        final(r).data@ == old(r).data@,
        match res {
            Ok(x) => old(r).has(516) && final(r).pos == old(r).pos + 516 && x.format == 2
                && x.length == u16_at(old(r).data@, old(r).pos as int)
                && x.language_code == u16_at(old(r).data@, old(r).pos + 2)
                && x.sub_header_keys@ == u16s_at(old(r).data@, old(r).pos + 4, 256),
            Err(e) => !old(r).has(516) && e == FontError::UnexpectedEndOfFile,
        },
{
    let length = r.get_uint16()?;
    let language_code = r.get_uint16()?;
    let sub_header_keys = r.get_uint16_array(256)?;
    Ok(CmapFormat2 { format: 2, length, language_code, sub_header_keys })
}

pub fn read_cmap_format4(r: &mut FontReader) -> (res: Result<CmapFormat4, FontError>)
    ensures
        final(r).data@ == old(r).data@,
        ({
            let s = old(r).data@;
            let q = old(r).pos as int;
            let n = (u16_at(s, q + 4) / 2) as int;
            match res {
                Ok(x) => q + 14 + 8 * n <= s.len() && final(r).pos == q + 14 + 8 * n && x.format == 4
                    && x.length == u16_at(s, q) && x.language_code == u16_at(s, q + 2)
                    && x.segcount_x2 == u16_at(s, q + 4) && x.search_range == u16_at(s, q + 6)
                    && x.entry_selector == u16_at(s, q + 8) && x.range_shift == u16_at(s, q + 10)
                    && x.segments@ == Seq::new(n as nat, |i: int| segment_at(s, q + 12, n, i)),
                Err(e) => (q + 12 > s.len() || q + 14 + 8 * n > s.len())
                    && e == FontError::UnexpectedEndOfFile,
            }
        }),
{
    let ghost s = r.data@;
    let ghost q = r.pos as int;
    let length = r.get_uint16()?;
    let language_code = r.get_uint16()?;
    let segcount_x2 = r.get_uint16()?;
    let search_range = r.get_uint16()?;
    let entry_selector = r.get_uint16()?;
    let range_shift = r.get_uint16()?;
    let segcount: u16 = segcount_x2 / 2;
    let end_codes = r.get_uint16_array(segcount as u32)?;
    let _ = r.get_uint16()?;
    let start_codes = r.get_uint16_array(segcount as u32)?;
    let id_deltas = r.get_uint16_array(segcount as u32)?;
    let id_range_offsets = r.get_uint16_array(segcount as u32)?;
    let ghost n = segcount as int;
    let mut segments: Vec<CmapFormat4Segment> = Vec::new();
    let mut i: usize = 0;
    while i < segcount as usize
        invariant
            i <= n,
            n == segcount,
            end_codes@ == u16s_at(s, q + 12, n as nat),
            start_codes@ == u16s_at(s, q + 14 + 2 * n, n as nat),
            id_deltas@ == u16s_at(s, q + 14 + 4 * n, n as nat),
            id_range_offsets@ == u16s_at(s, q + 14 + 6 * n, n as nat),
            segments@ == Seq::new(i as nat, |j: int| segment_at(s, q + 12, n, j)),
        decreases n - i,
    {
        segments.push(CmapFormat4Segment {
            id_range_offset: id_range_offsets[i],
            start_code: start_codes[i],
            end_code: end_codes[i],
            id_delta: id_deltas[i],
        });
        assert(segments@ =~= Seq::new((i + 1) as nat, |j: int| segment_at(s, q + 12, n, j)));
        i = i + 1;
    }
    Ok(CmapFormat4 {
        format: 4,
        length,
        language_code,
        segcount_x2,
        search_range,
        entry_selector,
        range_shift,
        segments,
    })
}

pub fn read_cmap_format6(r: &mut FontReader) -> (res: Result<CmapFormat6, FontError>)
    ensures
        final(r).data@ == old(r).data@,
        ({
            let s = old(r).data@;
            let q = old(r).pos as int;
            match res {
                Ok(x) => q + 8 + 2 * u16_at(s, q + 6) <= s.len()
                    && final(r).pos == q + 8 + 2 * u16_at(s, q + 6) && x.format == 6
                    && x.length == u16_at(s, q) && x.language_code == u16_at(s, q + 2)
                    && x.first_code == u16_at(s, q + 4) && x.entry_count == u16_at(s, q + 6)
                    && x.glyph_index_array@ == u16s_at(s, q + 8, x.entry_count as nat),
                Err(e) => (q + 8 > s.len() || q + 8 + 2 * u16_at(s, q + 6) > s.len())
                    && e == FontError::UnexpectedEndOfFile,
            }
        }),
{
    let length = r.get_uint16()?;
    let language_code = r.get_uint16()?;
    let first_code = r.get_uint16()?;
    let entry_count = r.get_uint16()?;
    let glyph_index_array = r.get_uint16_array(entry_count as u32)?;
    Ok(CmapFormat6 { format: 6, length, language_code, first_code, entry_count, glyph_index_array })
}

/// Reads `n` groups at the cursor.
fn read_groups(r: &mut FontReader, n: u32) -> (res: Result<Vec<CmapFormat80Group>, FontError>)
    ensures
        final(r).data@ == old(r).data@,
        match res {
            Ok(v) => (n > 0 ==> old(r).pos + 12 * n <= old(r).data@.len())
                && final(r).pos == old(r).pos + 12 * n
                && v@ == groups_at(old(r).data@, old(r).pos as int, n as nat),
            Err(e) => n > 0 && old(r).pos + 12 * n > old(r).data@.len()
                && e == FontError::UnexpectedEndOfFile,
        },
{
    let ghost s = r.data@;
    let ghost p = r.pos as int;
    let mut v: Vec<CmapFormat80Group> = Vec::new();
    let mut i: u32 = 0;
    while i < n
        invariant
            s == old(r).data@,
            p == old(r).pos,
            r.data@ == s,
            i <= n,
            r.pos == p + 12 * i,
            i > 0 ==> p + 12 * i <= s.len(),
            v@ == groups_at(s, p, i as nat),
        decreases n - i,
    {
        let start_char_code = r.get_uint32()?;
        let end_char_code = r.get_uint32()?;
        let start_glyph_code = r.get_uint32()?;
        v.push(CmapFormat80Group { start_char_code, end_char_code, start_glyph_code });
        assert(v@ =~= groups_at(s, p, (i + 1) as nat));
        i = i + 1;
    }
    Ok(v)
}

pub fn read_cmap_format80(r: &mut FontReader) -> (res: Result<CmapFormat80, FontError>)
    ensures
        final(r).data@ == old(r).data@,
        ({
            let s = old(r).data@;
            let q = old(r).pos as int;
            match res {
                Ok(x) => q + 8206 + 12 * u32_at(s, q + 8202) <= s.len()
                    && final(r).pos == q + 8206 + 12 * u32_at(s, q + 8202) && x.format == 8
                    && x.length == u32_at(s, q + 2) && x.language_code == u32_at(s, q + 6)
                    && x.is_32@ == u8s_at(s, q + 10, 8192) && x.n_groups == u32_at(s, q + 8202)
                    && x.groups@ == groups_at(s, q + 8206, x.n_groups as nat),
                Err(e) => (q + 8206 > s.len() || q + 8206 + 12 * u32_at(s, q + 8202) > s.len())
                    && e == FontError::UnexpectedEndOfFile,
            }
        }),
{
    let _ = r.get_uint16()?;
    let length = r.get_uint32()?;
    let language_code = r.get_uint32()?;
    let is_32 = r.get_uint8_array(8192)?;
    let n_groups = r.get_uint32()?;
    let groups = read_groups(r, n_groups)?;
    Ok(CmapFormat80 { format: 8, length, language_code, is_32, n_groups, groups })
}

pub fn read_cmap_format100(r: &mut FontReader) -> (res: Result<CmapFormat100, FontError>)
    ensures
        final(r).data@ == old(r).data@,
        ({
            let s = old(r).data@;
            let q = old(r).pos as int;
            let count = format10_glyph_count(u32_at(s, q + 2));
            match res {
                Ok(x) => q + 18 + 2 * count <= s.len() && final(r).pos == q + 18 + 2 * count
                    && x.format == 10
                    && x.length == u32_at(s, q + 2) && x.language_code == u32_at(s, q + 6)
                    && x.start_char_code == u32_at(s, q + 10) && x.num_chars == u32_at(s, q + 14)
                    && x.glyphs@ == u16s_at(s, q + 18, count as nat),
                Err(e) => (q + 18 > s.len() || q + 18 + 2 * count > s.len())
                    && e == FontError::UnexpectedEndOfFile,
            }
        }),
{
    let _ = r.get_uint16()?;
    let length = r.get_uint32()?;
    let language_code = r.get_uint32()?;
    let start_char_code = r.get_uint32()?;
    let num_chars = r.get_uint32()?;
    let count: u32 = if length >= 20 { (length - 20) / 2 } else { 0 };
    let glyphs = r.get_uint16_array(count)?;
    Ok(CmapFormat100 { format: 10, length, language_code, start_char_code, num_chars, glyphs })
}

pub fn read_cmap_format120(r: &mut FontReader) -> (res: Result<CmapFormat120, FontError>)
    ensures
        final(r).data@ == old(r).data@,
        ({
            let s = old(r).data@;
            let q = old(r).pos as int;
            match res {
                Ok(x) => q + 14 + 12 * u32_at(s, q + 10) <= s.len()
                    && final(r).pos == q + 14 + 12 * u32_at(s, q + 10) && x.format == 12
                    && x.length == u32_at(s, q + 2) && x.language_code == u32_at(s, q + 6)
                    && x.n_groups == u32_at(s, q + 10)
                    && x.groups@ == groups_at(s, q + 14, x.n_groups as nat),
                Err(e) => (q + 14 > s.len() || q + 14 + 12 * u32_at(s, q + 10) > s.len())
                    && e == FontError::UnexpectedEndOfFile,
            }
        }),
{
    let _ = r.get_uint16()?;
    let length = r.get_uint32()?;
    let language_code = r.get_uint32()?;
    let n_groups = r.get_uint32()?;
    let groups = read_groups(r, n_groups)?;
    Ok(CmapFormat120 { format: 12, length, language_code, n_groups, groups })
}

/// Reads the format field at the cursor and decodes the subtable it announces.
pub fn cmap_format_table(r: &mut FontReader) -> (res: Result<CmapFormatTable, FontError>)
    ensures
        final(r).data@ == old(r).data@,
        match res {
            Ok(t) => subtable_error(old(r).data@, old(r).pos as int) is None
                && subtable_matches(old(r).data@, old(r).pos as int, t)
                && final(r).pos == subtable_end(old(r).data@, old(r).pos as int),
            Err(e) => subtable_error(old(r).data@, old(r).pos as int) == Some(e),
        },
{
    let format = r.get_uint16()?;
    match format {
        0 => Ok(CmapFormatTable::Format0(read_cmap_format0(r)?)),
        2 => Ok(CmapFormatTable::Format2(read_cmap_format2(r)?)),
        4 => Ok(CmapFormatTable::Format4(read_cmap_format4(r)?)),
        6 => Ok(CmapFormatTable::Format6(read_cmap_format6(r)?)),
        8 => Ok(CmapFormatTable::Format80(read_cmap_format80(r)?)),
        10 => Ok(CmapFormatTable::Format100(read_cmap_format100(r)?)),
        12 => Ok(CmapFormatTable::Format120(read_cmap_format120(r)?)),
        _ => Err(FontError::UnsupportedCmapFormat(format)),
    }
}

/// Whether an encoding is for a Unicode or Microsoft platform.
pub open spec fn is_preferred(e: CmapEncoding) -> bool {
    e.platform_id == CmapPlatform::Unicode || e.platform_id == CmapPlatform::Microsoft
}

/// Index of the first Unicode or Microsoft encoding among the first `k`, if any.
pub open spec fn first_preferred(es: Seq<CmapEncoding>, k: nat) -> Option<int>
    decreases k,
{
    if k == 0 {
        None
    } else {
        match first_preferred(es, (k - 1) as nat) {
            Some(i) => Some(i),
            None => if is_preferred(es[k - 1]) { Some(k - 1) } else { None },
        }
    }
}

/// The encoding whose subtable is decoded: the first Unicode or Microsoft one,
/// else the first one.
pub open spec fn selected_encoding(es: Seq<CmapEncoding>) -> Option<CmapEncoding> {
    match first_preferred(es, es.len()) {
        Some(i) => Some(es[i]),
        None => if es.len() > 0 { Some(es[0]) } else { None },
    }
}

/// Picks the encoding whose subtable is decoded.
pub fn select_encoding(encodings: &Vec<CmapEncoding>) -> (r: Option<CmapEncoding>)
    ensures
        r == selected_encoding(encodings@),
{
    let mut i: usize = 0;
    while i < encodings.len()
        invariant
            i <= encodings@.len(),
            first_preferred(encodings@, i as nat) is None,
        decreases encodings@.len() - i,
    {
        let e = encodings[i];
        let preferred = match e.platform_id {
            CmapPlatform::Unicode => true,
            CmapPlatform::Microsoft => true,
            CmapPlatform::Macintosh => false,
        };
        if preferred {
            proof {
                lemma_first_preferred_stays(encodings@, (i + 1) as nat, encodings@.len());
            }
            return Some(e);
        }
        i = i + 1;
    }
    if encodings.len() > 0 {
        Some(encodings[0])
    } else {
        None
    }
}

/// Once a preferred encoding has been found, looking further does not change it.
proof fn lemma_first_preferred_stays(es: Seq<CmapEncoding>, k: nat, n: nat)
    requires
        k <= n,
        first_preferred(es, k) is Some,
    ensures
        first_preferred(es, n) == first_preferred(es, k),
    decreases n - k,
{
    if k < n {
        lemma_first_preferred_stays(es, k, (n - 1) as nat);
    }
}

/// Where the decoded subtable starts, for a `cmap` at `p` with encodings `es`:
/// at the selected encoding's offset, or right after the records if there are none.
pub open spec fn subtable_pos(p: int, es: Seq<CmapEncoding>) -> int {
    match selected_encoding(es) {
        Some(e) => p + e.offset,
        None => p + 4 + 8 * es.len(),
    }
}

/// What decoding the `cmap` table at `p` gives: `Ok` carries the header and the
/// encoding records, the subtable being described by `subtable_error` and
/// `subtable_matches` at `subtable_pos`.
pub open spec fn cmap_outcome(s: Seq<u8>, p: int) -> Result<(CmapIndex, Seq<CmapEncoding>), FontError> {
    if p + 4 > s.len() {
        Err(FontError::UnexpectedEndOfFile)
    } else {
        match encodings_prefix(s, p + 4, u16_at(s, p + 2) as nat) {
            Err(e) => Err(e),
            Ok(es) => match subtable_error(s, subtable_pos(p, es)) {
                Some(e) => Err(e),
                None => Ok((CmapIndex { version: u16_at(s, p), subtable_count: u16_at(s, p + 2) }, es)),
            },
        }
    }
}

/// Decodes the `cmap` table that `table` locates: its header, its encoding
/// records, and the subtable of the selected encoding.
pub fn read(r: &mut FontReader, table: OffsetTable) -> (res: Result<Cmap, FontError>)
    ensures
        final(r).data@ == old(r).data@,
        match res {
            Ok(c) => cmap_outcome(old(r).data@, table.offset as int)
                == Ok::<(CmapIndex, Seq<CmapEncoding>), FontError>((c.index, c.encodings@))
                && subtable_matches(
                    old(r).data@,
                    subtable_pos(table.offset as int, c.encodings@),
                    c.format_table,
                )
                && final(r).pos == subtable_end(old(r).data@, subtable_pos(table.offset as int, c.encodings@)),
            Err(e) => cmap_outcome(old(r).data@, table.offset as int)
                == Err::<(CmapIndex, Seq<CmapEncoding>), FontError>(e),
        },
{
    let ghost s = r.data@;
    r.seek_checked(table.offset as u64)?;
    let version = r.get_uint16()?;
    let subtable_count = r.get_uint16()?;
    let index = CmapIndex { version, subtable_count };
    let encodings = cmap_encoding_tables(r, subtable_count)?;
    match select_encoding(&encodings) {
        Some(e) => {
            r.seek_checked(table.offset as u64 + e.offset as u64)?;
        },
        None => {},
    }
    let format_table = cmap_format_table(r)?;
    Ok(Cmap { index, encodings, format_table })
}

} // verus!
