use vstd::prelude::*;
use crate::error::FontError;
use crate::reader::{FontReader, u16_at, i16_at};
use crate::tables::offset::OffsetTable;

verus! {

/// Advance width and left side bearing of one glyph.
#[derive(Clone, Copy, Debug, PartialEq, Eq, Structural)]
pub struct HmtxLongHorMetric {
    pub advance_width: u16,
    pub left_side_bearing: i16,
}

/// The `hmtx` table: full metrics for the first glyphs, bearings alone for the rest.
#[derive(Clone, Debug)]
pub struct Hmtx {
    pub hmetrics: Vec<HmtxLongHorMetric>,
    pub left_side_bearings: Vec<i16>,
}

/// The metric pair whose 4 bytes start at `p`.
pub open spec fn long_metric_at(s: Seq<u8>, p: int) -> HmtxLongHorMetric {
    HmtxLongHorMetric { advance_width: u16_at(s, p), left_side_bearing: i16_at(s, p + 2) }
}

/// The `n` metric pairs at `p`.
pub open spec fn long_metrics_at(s: Seq<u8>, p: int, n: nat) -> Seq<HmtxLongHorMetric> {
    Seq::new(n, |i: int| long_metric_at(s, p + 4 * i))
}

/// The `n` signed 16-bit values at `p`.
pub open spec fn i16s_at(s: Seq<u8>, p: int, n: nat) -> Seq<i16> {
    Seq::new(n, |i: int| i16_at(s, p + 2 * i))
}

/// Number of bytes an `hmtx` table takes.
pub open spec fn hmtx_size(long_count: u16, glyph_count: u16) -> int {
    4 * long_count + 2 * (glyph_count - long_count)
}

/// Decodes the `hmtx` table that `table` locates: `long_hor_metric_count` pairs,
/// then one bearing for each of the remaining glyphs.
pub fn read(
    r: &mut FontReader,
    table: OffsetTable,
    long_hor_metric_count: u16,
    glyph_count: u16,
) -> (res: Result<Hmtx, FontError>)
    requires
        long_hor_metric_count <= glyph_count,
    ensures
        final(r).data@ == old(r).data@,
        match res {
            Ok(h) => table.offset + hmtx_size(long_hor_metric_count, glyph_count)
                <= old(r).data@.len()
                && final(r).pos == table.offset + hmtx_size(long_hor_metric_count, glyph_count)
                && h.hmetrics@ == long_metrics_at(
                    old(r).data@, table.offset as int, long_hor_metric_count as nat)
                && h.left_side_bearings@ == i16s_at(
                    old(r).data@,
                    table.offset + 4 * long_hor_metric_count,
                    (glyph_count - long_hor_metric_count) as nat,
                ),
            Err(e) => table.offset + hmtx_size(long_hor_metric_count, glyph_count)
                > old(r).data@.len() && e == FontError::UnexpectedEndOfFile,
        },
{
    let ghost s = r.data@;
    let ghost p = table.offset as int;
    r.seek_checked(table.offset as u64)?;
    let mut hmetrics: Vec<HmtxLongHorMetric> = Vec::new();
    let mut i: u16 = 0;
    while i < long_hor_metric_count
        invariant
            s == old(r).data@,
            p == table.offset,
            r.data@ == s,
            i <= long_hor_metric_count,
            long_hor_metric_count <= glyph_count,
            r.pos == p + 4 * i,
            p <= s.len(),
            i > 0 ==> p + 4 * i <= s.len(),
            hmetrics@ == long_metrics_at(s, p, i as nat),
        decreases long_hor_metric_count - i,
    {
        let advance_width = r.get_uint16()?;
        let left_side_bearing = r.get_int16()?;
        hmetrics.push(HmtxLongHorMetric { advance_width, left_side_bearing });
        assert(hmetrics@ =~= long_metrics_at(s, p, (i + 1) as nat));
        i = i + 1;
    }
    let ghost q = p + 4 * long_hor_metric_count;
    let trailing: u16 = glyph_count - long_hor_metric_count;
    let mut left_side_bearings: Vec<i16> = Vec::new();
    let mut j: u16 = 0;
    while j < trailing
        invariant
            s == old(r).data@,
            p == table.offset,
            q == p + 4 * long_hor_metric_count,
            trailing == glyph_count - long_hor_metric_count,
            r.data@ == s,
            j <= trailing,
            r.pos == q + 2 * j,
            long_hor_metric_count > 0 ==> q <= s.len(),
            p <= s.len(),
            j > 0 ==> q + 2 * j <= s.len(),
            left_side_bearings@ == i16s_at(s, q, j as nat),
            hmetrics@ == long_metrics_at(s, p, long_hor_metric_count as nat),
        decreases trailing - j,
    {
        let lsb = r.get_int16()?;
        left_side_bearings.push(lsb);
        assert(left_side_bearings@ =~= i16s_at(s, q, (j + 1) as nat));
        j = j + 1;
    }
    Ok(Hmtx { hmetrics, left_side_bearings })
}

} // verus!
