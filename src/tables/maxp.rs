use vstd::prelude::*;
use crate::error::FontError;
use crate::reader::{FontReader, Fixed, u16_at, i32_at};
use crate::tables::offset::OffsetTable;

verus! {

/// The `maxp` table: the glyph count and the capacities the font needs.
#[derive(Clone, Copy, Debug, PartialEq, Eq, Structural)]
pub struct Maxp {
    pub version: Fixed,
    pub glyph_count: u16,
    pub max_points: u16,
    pub max_contours: u16,
    pub max_component_points: u16,
    pub max_component_contours: u16,
    pub max_zones: u16,
    pub max_twilight_points: u16,
    pub max_storage: u16,
    pub max_function_defs: u16,
    pub max_instruction_defs: u16,
    pub max_stack_elements: u16,
    pub max_size_of_instructions: u16,
    pub max_component_elements: u16,
    pub max_component_depth: u16,
}

/// The `maxp` record whose 32 bytes start at `p`.
pub open spec fn maxp_at(s: Seq<u8>, p: int) -> Maxp {
    Maxp {
        version: Fixed { raw: i32_at(s, p) },
        glyph_count: u16_at(s, p + 4),
        max_points: u16_at(s, p + 6),
        max_contours: u16_at(s, p + 8),
        max_component_points: u16_at(s, p + 10),
        max_component_contours: u16_at(s, p + 12),
        max_zones: u16_at(s, p + 14),
        max_twilight_points: u16_at(s, p + 16),
        max_storage: u16_at(s, p + 18),
        max_function_defs: u16_at(s, p + 20),
        max_instruction_defs: u16_at(s, p + 22),
        max_stack_elements: u16_at(s, p + 24),
        max_size_of_instructions: u16_at(s, p + 26),
        max_component_elements: u16_at(s, p + 28),
        max_component_depth: u16_at(s, p + 30),
    }
}

/// What decoding a `maxp` table at `p` gives.
pub open spec fn maxp_spec(s: Seq<u8>, p: int) -> Result<Maxp, FontError> {
    if p + 32 > s.len() { Err(FontError::UnexpectedEndOfFile) } else { Ok(maxp_at(s, p)) }
}

/// Decodes the `maxp` table that `table` locates.
pub fn read(r: &mut FontReader, table: OffsetTable) -> (res: Result<Maxp, FontError>)
    ensures
        final(r).data@ == old(r).data@,
        res == maxp_spec(old(r).data@, table.offset as int),
        res is Ok ==> final(r).pos == table.offset + 32,
{
    r.seek_checked(table.offset as u64)?;
    Ok(Maxp {
        version: r.get_float32()?,
        glyph_count: r.get_uint16()?,
        max_points: r.get_uint16()?,
        max_contours: r.get_uint16()?,
        max_component_points: r.get_uint16()?,
        max_component_contours: r.get_uint16()?,
        max_zones: r.get_uint16()?,
        max_twilight_points: r.get_uint16()?,
        max_storage: r.get_uint16()?,
        max_function_defs: r.get_uint16()?,
        max_instruction_defs: r.get_uint16()?,
        max_stack_elements: r.get_uint16()?,
        max_size_of_instructions: r.get_uint16()?,
        max_component_elements: r.get_uint16()?,
        max_component_depth: r.get_uint16()?,
    })
}

} // verus!
