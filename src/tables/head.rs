use vstd::prelude::*;
use crate::error::FontError;
use crate::reader::{FontReader, Fixed, u16_at, u32_at, i16_at, i32_at, u64_at, hfs_to_unix};
use crate::tables::offset::OffsetTable;

verus! {

/// The value that `head.magicNumber` must hold.
pub const HEAD_MAGIC: u32 = 0x5F0F3CF5;

/// The `head` table: global facts about the font.
#[derive(Clone, Copy, Debug, PartialEq, Eq, Structural)]
pub struct Head {
    pub version: Fixed,
    pub font_revision: Fixed,
    pub checksum_adjustment: u32,
    pub magic_number: u32,
    pub flags: u16,
    pub units_per_em: u16,
    /// Creation time, in Unix seconds.
    pub created: i64,
    /// Modification time, in Unix seconds.
    pub modified: i64,
    pub xmin: i16,
    pub ymin: i16,
    pub xmax: i16,
    pub ymax: i16,
    pub mac_style: u16,
    pub lowest_rec_ppem: u16,
    pub font_direction_hint: i16,
    pub index_to_loc_format: i16,
    pub glyph_data_format: i16,
}

/// The `head` record whose 54 bytes start at `p`.
pub open spec fn head_at(s: Seq<u8>, p: int) -> Head {
    Head {
        version: Fixed { raw: i32_at(s, p) },
        font_revision: Fixed { raw: i32_at(s, p + 4) },
        checksum_adjustment: u32_at(s, p + 8),
        magic_number: u32_at(s, p + 12),
        flags: u16_at(s, p + 16),
        units_per_em: u16_at(s, p + 18),
        created: hfs_to_unix(u64_at(s, p + 20)),
        modified: hfs_to_unix(u64_at(s, p + 28)),
        xmin: i16_at(s, p + 36),
        ymin: i16_at(s, p + 38),
        xmax: i16_at(s, p + 40),
        ymax: i16_at(s, p + 42),
        mac_style: u16_at(s, p + 44),
        lowest_rec_ppem: u16_at(s, p + 46),
        font_direction_hint: i16_at(s, p + 48),
        index_to_loc_format: i16_at(s, p + 50),
        glyph_data_format: i16_at(s, p + 52),
    }
}

/// What decoding a `head` table at `p` gives: the magic number is checked as
/// soon as it has been read.
pub open spec fn head_spec(s: Seq<u8>, p: int) -> Result<Head, FontError> {
    if p + 16 > s.len() {
        Err(FontError::UnexpectedEndOfFile)
    } else if u32_at(s, p + 12) != HEAD_MAGIC {
        Err(FontError::BadMagic)
    } else if p + 54 > s.len() {
        Err(FontError::UnexpectedEndOfFile)
    } else {
        Ok(head_at(s, p))
    }
}

/// Decodes the `head` table that `table` locates.
pub fn read(r: &mut FontReader, table: OffsetTable) -> (res: Result<Head, FontError>)
    ensures
        final(r).data@ == old(r).data@,
        res == head_spec(old(r).data@, table.offset as int),
        res is Ok ==> final(r).pos == table.offset + 54,
{
    r.seek_checked(table.offset as u64)?;
    let version = r.get_float32()?;
    let font_revision = r.get_float32()?;
    let checksum_adjustment = r.get_uint32()?;
    let magic_number = r.get_uint32()?;
    if magic_number != HEAD_MAGIC {
        return Err(FontError::BadMagic);
    }
    let flags = r.get_uint16()?;
    let units_per_em = r.get_uint16()?;
    let created = r.get_date()?;
    let modified = r.get_date()?;
    let xmin = r.get_int16()?;
    let ymin = r.get_int16()?;
    let xmax = r.get_int16()?;
    let ymax = r.get_int16()?;
    let mac_style = r.get_uint16()?;
    let lowest_rec_ppem = r.get_uint16()?;
    let font_direction_hint = r.get_int16()?;
    let index_to_loc_format = r.get_int16()?;
    let glyph_data_format = r.get_int16()?;
    Ok(Head {
        version,
        font_revision,
        checksum_adjustment,
        magic_number,
        flags,
        units_per_em,
        created,
        modified,
        xmin,
        ymin,
        xmax,
        ymax,
        mac_style,
        lowest_rec_ppem,
        font_direction_hint,
        index_to_loc_format,
        glyph_data_format,
    })
}

} // verus!
