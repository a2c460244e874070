use vstd::prelude::*;
use crate::error::FontError;
use crate::reader::{FontReader, u16_at};
use crate::tables::offset::OffsetTable;

verus! {

/// One record of the `name` table; the string it points at is not decoded.
#[derive(Clone, Copy, Debug, PartialEq, Eq, Structural)]
pub struct NameRecord {
    pub platform_id: u16,
    pub platform_specific_id: u16,
    pub language_id: u16,
    pub name_id: u16,
    pub length: u16,
    pub offset: u16,
}

/// The `name` table header and its records.
#[derive(Clone, Debug)]
pub struct Name {
    pub format: u16,
    pub count: u16,
    pub string_offset: u16,
    pub name_records: Vec<NameRecord>,
}

/// The name record whose 12 bytes start at `p`.
pub open spec fn name_record_at(s: Seq<u8>, p: int) -> NameRecord {
    NameRecord {
        platform_id: u16_at(s, p),
        platform_specific_id: u16_at(s, p + 2),
        language_id: u16_at(s, p + 4),
        name_id: u16_at(s, p + 6),
        length: u16_at(s, p + 8),
        offset: u16_at(s, p + 10),
    }
}

/// The `n` name records at `p`.
pub open spec fn name_records_at(s: Seq<u8>, p: int, n: nat) -> Seq<NameRecord> {
    Seq::new(n, |i: int| name_record_at(s, p + 12 * i))
}

/// Decodes the `name` table that `table` locates.
pub fn read(r: &mut FontReader, table: OffsetTable) -> (res: Result<Name, FontError>)
    ensures
        final(r).data@ == old(r).data@,
        ({
            let s = old(r).data@;
            let p = table.offset as int;
            match res {
                Ok(n) => p + 6 + 12 * u16_at(s, p + 2) <= s.len()
                    && final(r).pos == p + 6 + 12 * u16_at(s, p + 2)
                    && n.format == u16_at(s, p)
                    && n.count == u16_at(s, p + 2)
                    && n.string_offset == u16_at(s, p + 4)
                    && n.name_records@ == name_records_at(s, p + 6, n.count as nat),
                Err(e) => (p + 6 > s.len() || p + 6 + 12 * u16_at(s, p + 2) > s.len())
                    && e == FontError::UnexpectedEndOfFile,
            }
        }),
{
    let ghost s = r.data@;
    let ghost p = table.offset as int;
    r.seek_checked(table.offset as u64)?;
    let format = r.get_uint16()?;
    let count = r.get_uint16()?;
    let string_offset = r.get_uint16()?;
    let mut name_records: Vec<NameRecord> = Vec::new();
    let mut i: u16 = 0;
    while i < count
        invariant
            s == old(r).data@,
            p == table.offset,
            r.data@ == s,
            p + 6 <= s.len(),
            count == u16_at(s, p + 2),
            i <= count,
            r.pos == p + 6 + 12 * i,
            p + 6 + 12 * i <= s.len(),
            name_records@ == name_records_at(s, p + 6, i as nat),
        decreases count - i,
    {
        let platform_id = r.get_uint16()?;
        let platform_specific_id = r.get_uint16()?;
        let language_id = r.get_uint16()?;
        let name_id = r.get_uint16()?;
        let length = r.get_uint16()?;
        let offset = r.get_uint16()?;
        name_records.push(NameRecord {
            platform_id,
            platform_specific_id,
            language_id,
            name_id,
            length,
            offset,
        });
        assert(name_records@ =~= name_records_at(s, p + 6, (i + 1) as nat));
        i = i + 1;
    }
    Ok(Name { format, count, string_offset, name_records })
}

} // verus!
