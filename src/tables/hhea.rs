use vstd::prelude::*;
use crate::error::FontError;
use crate::reader::{FontReader, Fixed, u16_at, i16_at, i32_at};
use crate::tables::offset::OffsetTable;

verus! {

/// The `hhea` table: horizontal layout metrics.
#[derive(Clone, Copy, Debug, PartialEq, Eq, Structural)]
pub struct Hhea {
    pub version: Fixed,
    pub ascent: i16,
    pub descent: i16,
    pub line_gap: i16,
    pub advance_width_max: u16,
    pub min_left_side_bearing: i16,
    pub min_right_side_bearing: i16,
    pub x_max_extent: i16,
    pub caret_slope_rise: i16,
    pub caret_slope_run: i16,
    pub caret_offset: i16,
    pub metric_data_format: i16,
    pub num_of_long_hor_metrics: u16,
}

/// The `hhea` record whose 36 bytes start at `p`; bytes 24 to 31 are reserved.
pub open spec fn hhea_at(s: Seq<u8>, p: int) -> Hhea {
    Hhea {
        version: Fixed { raw: i32_at(s, p) },
        ascent: i16_at(s, p + 4),
        descent: i16_at(s, p + 6),
        line_gap: i16_at(s, p + 8),
        advance_width_max: u16_at(s, p + 10),
        min_left_side_bearing: i16_at(s, p + 12),
        min_right_side_bearing: i16_at(s, p + 14),
        x_max_extent: i16_at(s, p + 16),
        caret_slope_rise: i16_at(s, p + 18),
        caret_slope_run: i16_at(s, p + 20),
        caret_offset: i16_at(s, p + 22),
        metric_data_format: i16_at(s, p + 32),
        num_of_long_hor_metrics: u16_at(s, p + 34),
    }
}

/// What decoding an `hhea` table at `p` gives.
pub open spec fn hhea_spec(s: Seq<u8>, p: int) -> Result<Hhea, FontError> {
    if p + 36 > s.len() { Err(FontError::UnexpectedEndOfFile) } else { Ok(hhea_at(s, p)) }
}

/// Decodes the `hhea` table that `table` locates.
pub fn read(r: &mut FontReader, table: OffsetTable) -> (res: Result<Hhea, FontError>)
    ensures
        final(r).data@ == old(r).data@,
        res == hhea_spec(old(r).data@, table.offset as int),
        res is Ok ==> final(r).pos == table.offset + 36,
{
    r.seek_checked(table.offset as u64)?;
    let version = r.get_float32()?;
    let ascent = r.get_int16()?;
    let descent = r.get_int16()?;
    let line_gap = r.get_int16()?;
    let advance_width_max = r.get_uint16()?;
    let min_left_side_bearing = r.get_int16()?;
    let min_right_side_bearing = r.get_int16()?;
    let x_max_extent = r.get_int16()?;
    let caret_slope_rise = r.get_int16()?;
    let caret_slope_run = r.get_int16()?;
    let caret_offset = r.get_int16()?;
    let _ = r.get_int16()?;
    let _ = r.get_int16()?;
    let _ = r.get_int16()?;
    let _ = r.get_int16()?;
    let metric_data_format = r.get_int16()?;
    let num_of_long_hor_metrics = r.get_uint16()?;
    Ok(Hhea {
        version,
        ascent,
        descent,
        line_gap,
        advance_width_max,
        min_left_side_bearing,
        min_right_side_bearing,
        x_max_extent,
        caret_slope_rise,
        caret_slope_run,
        caret_offset,
        metric_data_format,
        num_of_long_hor_metrics,
    })
}

} // verus!
