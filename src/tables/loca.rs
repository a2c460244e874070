use vstd::prelude::*;
use crate::error::FontError;
use crate::reader::{FontReader, u16s_at, u32s_at};
use crate::tables::offset::OffsetTable;

verus! {

/// The `loca` table: where each glyph starts in `glyf`, plus a final sentinel.
#[derive(Clone, Debug)]
pub enum Loca {
    /// Half-offsets: each entry is the byte offset divided by two.
    Short(Vec<u16>),
    /// Byte offsets.
    Long(Vec<u32>),
}

impl Loca {
    /// Number of entries.
    pub open spec fn spec_len(&self) -> nat {
        match self {
            Loca::Short(v) => v@.len(),
            Loca::Long(v) => v@.len(),
        }
    }

    /// Byte offset into `glyf` that entry `i` stands for.
    pub open spec fn spec_offset(&self, i: int) -> int {
        match self {
            Loca::Short(v) => 2 * v@[i],
            Loca::Long(v) => v@[i] as int,
        }
    }

    /// Number of entries.
    pub fn len(&self) -> (n: usize)
        ensures
            n == self.spec_len(),
    {
        match self {
            Loca::Short(v) => v.len(),
            Loca::Long(v) => v.len(),
        }
    }
}

/// Decodes the `loca` table that `table` locates: `glyph_count + 1` entries,
/// 16-bit half-offsets for format 0 and 32-bit offsets for format 1.
pub fn read(
    r: &mut FontReader,
    table: OffsetTable,
    glyph_count: u16,
    index_to_loc_format: i16,
) -> (res: Result<Loca, FontError>)
    ensures
        final(r).data@ == old(r).data@,
        match res {
            Ok(Loca::Short(v)) => index_to_loc_format == 0
                && table.offset + 2 * (glyph_count + 1) <= old(r).data@.len()
                && final(r).pos == table.offset + 2 * (glyph_count + 1)
                && v@ == u16s_at(old(r).data@, table.offset as int, (glyph_count + 1) as nat),
            Ok(Loca::Long(v)) => index_to_loc_format == 1
                && table.offset + 4 * (glyph_count + 1) <= old(r).data@.len()
                && final(r).pos == table.offset + 4 * (glyph_count + 1)
                && v@ == u32s_at(old(r).data@, table.offset as int, (glyph_count + 1) as nat),
            Err(e) => if table.offset > old(r).data@.len() {
                e == FontError::UnexpectedEndOfFile
            } else if index_to_loc_format == 0 {
                table.offset + 2 * (glyph_count + 1) > old(r).data@.len()
                    && e == FontError::UnexpectedEndOfFile
            } else if index_to_loc_format == 1 {
                table.offset + 4 * (glyph_count + 1) > old(r).data@.len()
                    && e == FontError::UnexpectedEndOfFile
            } else {
                e == FontError::UnsupportedLocaFormat(index_to_loc_format)
            },
        },
{
    r.seek_checked(table.offset as u64)?;
    let count: u32 = glyph_count as u32 + 1;
    match index_to_loc_format {
        0 => {
            let offsets = r.get_uint16_array(count)?;
            Ok(Loca::Short(offsets))
        },
        1 => {
            let offsets = r.get_uint32_array(count)?;
            Ok(Loca::Long(offsets))
        },
        _ => Err(FontError::UnsupportedLocaFormat(index_to_loc_format)),
    }
}

} // verus!
