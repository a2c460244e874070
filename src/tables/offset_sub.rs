use vstd::prelude::*;
use crate::error::FontError;
use crate::reader::{FontReader, u16_at, u32_at};

verus! {

/// The file header that opens every font file.
#[derive(Clone, Copy, Debug, PartialEq, Eq, Structural)]
pub struct OffsetSubTable {
    pub scalar_type: u32,
    pub numtables: u16,
    pub search_range: u16,
    pub entry_selector: u16,
    pub range_shift: u16,
}

/// Size of the file header in bytes.
pub const OFFSET_SUBTABLE_SIZE: u64 = 12;

/// The file header whose bytes start at `p`.
pub open spec fn offset_subtable_at(s: Seq<u8>, p: int) -> OffsetSubTable {
    OffsetSubTable {
        scalar_type: u32_at(s, p),
        numtables: u16_at(s, p + 4),
        search_range: u16_at(s, p + 6),
        entry_selector: u16_at(s, p + 8),
        range_shift: u16_at(s, p + 10),
    }
}

/// Reads the file header at the cursor.
pub fn read(r: &mut FontReader) -> (res: Result<OffsetSubTable, FontError>)
    ensures
        final(r).data@ == old(r).data@,
        match res {
            Ok(t) => old(r).has(12) && t == offset_subtable_at(old(r).data@, old(r).pos as int)
                && final(r).pos == old(r).pos + 12,
            Err(e) => !old(r).has(12) && e == FontError::UnexpectedEndOfFile,
        },
{
    let scalar_type = r.get_uint32()?;
    let numtables = r.get_uint16()?;
    let search_range = r.get_uint16()?;
    let entry_selector = r.get_uint16()?;
    let range_shift = r.get_uint16()?;
    Ok(OffsetSubTable { scalar_type, numtables, search_range, entry_selector, range_shift })
}

} // verus!
