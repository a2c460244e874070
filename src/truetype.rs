use vstd::prelude::*;
use crate::error::FontError;
use crate::reader::{FontReader, u16_at, u32_at};
use crate::tables::offset_sub::{self, OffsetSubTable, offset_subtable_at};
use crate::tables::offset::{
    self, OffsetTable, TableDirectory, directory_prefix, lookup, TAG_HEAD, TAG_MAXP, TAG_CMAP,
    TAG_HHEA, TAG_HMTX, TAG_LOCA, TAG_NAME, TAG_GLYF,
};
use crate::tables::head::{self, Head, head_spec, HEAD_MAGIC};
use crate::tables::maxp::{self, Maxp, maxp_spec};
use crate::tables::hhea::{self, Hhea, hhea_spec};
use crate::tables::hmtx::{self, Hmtx, hmtx_size, long_metrics_at, i16s_at};
use crate::tables::loca::{self, Loca};
use crate::tables::name::{self, Name, name_records_at};
use crate::tables::cmap::{
    self, Cmap, CmapIndex, CmapEncoding, cmap_outcome, subtable_matches, subtable_pos, subtable_end,
};
use crate::tables::glyf::{self, Glyph, GlyphModel, GlyphSource, glyph_spec, glyph_facts, glyph_location};
use crate::tables::offset::{
    region_checksum, lemma_directory_checksums, entry_checks, entry_at, region_end, same_bytes,
    lemma_directory_frame, lemma_directory_error_persists, lemma_directory_prefixes,
    lemma_table_sum_sees_byte, lemma_u32_at_sees_byte,
};
use crate::reader::byte_or_zero;
use crate::reader::{u16s_at, u32s_at};

verus! {

/// A decoded font: the file it came from and every table decoded up front.
#[derive(Debug)]
pub struct TrueTypeFont {
    pub file: FontReader,
    pub offset_sub_table: OffsetSubTable,
    pub offset_tables: TableDirectory,
    pub head: Head,
    pub maxp: Maxp,
    pub cmap: Cmap,
    pub hhea: Hhea,
    pub hmtx: Hmtx,
    pub loca: Loca,
    pub name: Name,
    /// Where `loca` and `glyf` lie, for decoding glyphs.
    pub glyph_source: GlyphSource,
}

/// What decoding a `loca` table at `p` gives, as an outcome: `None` when it decodes.
pub open spec fn loca_error(s: Seq<u8>, p: int, glyph_count: u16, format: i16) -> Option<FontError> {
    if p > s.len() {
        Some(FontError::UnexpectedEndOfFile)
    } else if format == 0 {
        if p + 2 * (glyph_count + 1) > s.len() { Some(FontError::UnexpectedEndOfFile) } else { None }
    } else if format == 1 {
        if p + 4 * (glyph_count + 1) > s.len() { Some(FontError::UnexpectedEndOfFile) } else { None }
    } else {
        Some(FontError::UnsupportedLocaFormat(format))
    }
}

/// Whether `l` is the `loca` table at `p` for `glyph_count` glyphs in format `format`.
pub open spec fn loca_matches(s: Seq<u8>, p: int, glyph_count: u16, format: i16, l: Loca) -> bool {
    match l {
        Loca::Short(v) => format == 0 && p + 2 * (glyph_count + 1) <= s.len()
            && v@ == u16s_at(s, p, (glyph_count + 1) as nat),
        Loca::Long(v) => format == 1 && p + 4 * (glyph_count + 1) <= s.len()
            && v@ == u32s_at(s, p, (glyph_count + 1) as nat),
    }
}

/// Whether `n` is the `name` table at `p`.
pub open spec fn name_matches(s: Seq<u8>, p: int, n: Name) -> bool {
    &&& p + 6 + 12 * u16_at(s, p + 2) <= s.len()
    &&& n.format == u16_at(s, p)
    &&& n.count == u16_at(s, p + 2)
    &&& n.string_offset == u16_at(s, p + 4)
    &&& n.name_records@ == name_records_at(s, p + 6, n.count as nat)
}

/// Whether `h` is the `hmtx` table at `p` for these counts.
pub open spec fn hmtx_matches(s: Seq<u8>, p: int, long_count: u16, glyph_count: u16, h: Hmtx) -> bool {
    &&& p + hmtx_size(long_count, glyph_count) <= s.len()
    &&& h.hmetrics@ == long_metrics_at(s, p, long_count as nat)
    &&& h.left_side_bearings@ == i16s_at(s, p + 4 * long_count, (glyph_count - long_count) as nat)
}

/// The first failure met when decoding the font in `s`, or `None` when it decodes.
/// The steps, in order: file header, table directory (with checksums), `head`,
/// `maxp`, `cmap`, `hhea`, `hmtx`, `loca`, `name`, and finally the presence of `glyf`.
pub open spec fn open_error(s: Seq<u8>) -> Option<FontError> {
    if 12 > s.len() {
        Some(FontError::UnexpectedEndOfFile)
    } else {
        match directory_prefix(s, 12, offset_subtable_at(s, 0).numtables as nat) {
            Err(e) => Some(e),
            Ok(es) => match lookup(es, TAG_HEAD) {
                None => Some(FontError::MissingTable { tag: TAG_HEAD }),
                Some(ht) => match head_spec(s, ht.offset as int) {
                    Err(e) => Some(e),
                    Ok(head) => match lookup(es, TAG_MAXP) {
                        None => Some(FontError::MissingTable { tag: TAG_MAXP }),
                        Some(mt) => match maxp_spec(s, mt.offset as int) {
                            Err(e) => Some(e),
                            Ok(maxp) => match lookup(es, TAG_CMAP) {
                                None => Some(FontError::MissingTable { tag: TAG_CMAP }),
                                Some(ct) => match cmap_outcome(s, ct.offset as int) {
                                    Err(e) => Some(e),
                                    Ok(_) => open_error_after_cmap(s, es, head, maxp),
                                },
                            },
                        },
                    },
                },
            },
        }
    }
}

/// `open_error` from `hhea` on, once `head` and `maxp` have decoded.
#[verifier::opaque]
pub open spec fn open_error_after_cmap(s: Seq<u8>, es: Seq<offset::TableEntry>, head: Head, maxp: Maxp) -> Option<FontError> {
    match lookup(es, TAG_HHEA) {
        None => Some(FontError::MissingTable { tag: TAG_HHEA }),
        Some(hh) => match hhea_spec(s, hh.offset as int) {
            Err(e) => Some(e),
            Ok(hhea) => {
                let long_count = hhea.num_of_long_hor_metrics;
                let glyph_count = maxp.glyph_count;
                match lookup(es, TAG_HMTX) {
                    None => Some(FontError::MissingTable { tag: TAG_HMTX }),
                    Some(hm) => if long_count == 0 || long_count > glyph_count {
                        Some(FontError::BadMetricsCount(long_count))
                    } else if hm.offset + hmtx_size(long_count, glyph_count) > s.len() {
                        Some(FontError::UnexpectedEndOfFile)
                    } else {
                        match lookup(es, TAG_LOCA) {
                            None => Some(FontError::MissingTable { tag: TAG_LOCA }),
                            Some(lt) => match loca_error(s, lt.offset as int, glyph_count, head.index_to_loc_format) {
                                Some(e) => Some(e),
                                None => match lookup(es, TAG_NAME) {
                                    None => Some(FontError::MissingTable { tag: TAG_NAME }),
                                    Some(nt) => {
                                        let p = nt.offset as int;
                                        if p + 6 > s.len() || p + 6 + 12 * u16_at(s, p + 2) > s.len() {
                                            Some(FontError::UnexpectedEndOfFile)
                                        } else if lookup(es, TAG_GLYF) is None {
                                            Some(FontError::MissingTable { tag: TAG_GLYF })
                                        } else {
                                            None
                                        }
                                    },
                                },
                            },
                        }
                    },
                }
            },
        },
    }
}

impl FontReader {
    /// Reads the file header at the cursor.
    pub fn read_offset_subtable(&mut self) -> (res: Result<OffsetSubTable, FontError>)
        ensures
            final(self).data@ == old(self).data@,
            match res {
                Ok(t) => old(self).has(12) && t == offset_subtable_at(old(self).data@, old(self).pos as int)
                    && final(self).pos == old(self).pos + 12,
                Err(e) => !old(self).has(12) && e == FontError::UnexpectedEndOfFile,
            },
    {
        offset_sub::read(self)
    }

    /// Reads `numtables` directory records at the cursor, checking each table's checksum.
    pub fn read_offset_tables(&mut self, numtables: u16) -> (res: Result<TableDirectory, FontError>)
        ensures
            final(self).data@ == old(self).data@,
            match res {
                Ok(d) => directory_prefix(old(self).data@, old(self).pos as int, numtables as nat)
                    == Ok::<Seq<offset::TableEntry>, FontError>(d.entries@)
                    && final(self).pos == old(self).pos + 16 * numtables,
                Err(e) => directory_prefix(old(self).data@, old(self).pos as int, numtables as nat)
                    == Err::<Seq<offset::TableEntry>, FontError>(e),
            },
    {
        offset::read(self, numtables)
    }

    /// Decodes the `head` table that `table` locates.
    pub fn read_head(&mut self, table: OffsetTable) -> (res: Result<Head, FontError>)
        ensures
            final(self).data@ == old(self).data@,
            res == head_spec(old(self).data@, table.offset as int),
            res is Ok ==> final(self).pos == table.offset + 54,
    {
        head::read(self, table)
    }

    /// Decodes the `maxp` table that `table` locates.
    pub fn read_maxp(&mut self, table: OffsetTable) -> (res: Result<Maxp, FontError>)
        ensures
            final(self).data@ == old(self).data@,
            res == maxp_spec(old(self).data@, table.offset as int),
            res is Ok ==> final(self).pos == table.offset + 32,
    {
        maxp::read(self, table)
    }

    /// Decodes the `cmap` table that `table` locates.
    pub fn read_cmap(&mut self, table: OffsetTable) -> (res: Result<Cmap, FontError>)
        ensures
            final(self).data@ == old(self).data@,
            match res {
                Ok(c) => cmap_outcome(old(self).data@, table.offset as int)
                    == Ok::<(CmapIndex, Seq<CmapEncoding>), FontError>((c.index, c.encodings@))
                    && subtable_matches(old(self).data@, subtable_pos(table.offset as int, c.encodings@),
                        c.format_table)
                    && final(self).pos == subtable_end(old(self).data@,
                        subtable_pos(table.offset as int, c.encodings@)),
                Err(e) => cmap_outcome(old(self).data@, table.offset as int)
                    == Err::<(CmapIndex, Seq<CmapEncoding>), FontError>(e),
            },
    {
        cmap::read(self, table)
    }
}

impl TrueTypeFont {
    /// The table registered under `tag` (it is present in a well-formed font).
    pub open spec fn table(&self, tag: u32) -> OffsetTable {
        lookup(self.offset_tables.entries@, tag).unwrap()
    }

    /// Every decoded table is what the bytes of the file say.
    pub open spec fn wf(&self) -> bool {
        let s = self.file.data@;
        let es = self.offset_tables.entries@;
        &&& s.len() >= 12
        &&& self.offset_sub_table == offset_subtable_at(s, 0)
        &&& directory_prefix(s, 12, self.offset_sub_table.numtables as nat)
            == Ok::<Seq<offset::TableEntry>, FontError>(es)
        &&& lookup(es, TAG_HEAD) is Some && lookup(es, TAG_MAXP) is Some
        &&& lookup(es, TAG_CMAP) is Some && lookup(es, TAG_HHEA) is Some
        &&& lookup(es, TAG_HMTX) is Some && lookup(es, TAG_LOCA) is Some
        &&& lookup(es, TAG_NAME) is Some && lookup(es, TAG_GLYF) is Some
        &&& head_spec(s, self.table(TAG_HEAD).offset as int) == Ok::<Head, FontError>(self.head)
        &&& maxp_spec(s, self.table(TAG_MAXP).offset as int) == Ok::<Maxp, FontError>(self.maxp)
        &&& cmap_outcome(s, self.table(TAG_CMAP).offset as int)
            == Ok::<(CmapIndex, Seq<CmapEncoding>), FontError>((self.cmap.index, self.cmap.encodings@))
        &&& subtable_matches(s, subtable_pos(self.table(TAG_CMAP).offset as int, self.cmap.encodings@),
            self.cmap.format_table)
        &&& hhea_spec(s, self.table(TAG_HHEA).offset as int) == Ok::<Hhea, FontError>(self.hhea)
        &&& 1 <= self.hhea.num_of_long_hor_metrics <= self.maxp.glyph_count
        &&& hmtx_matches(s, self.table(TAG_HMTX).offset as int, self.hhea.num_of_long_hor_metrics,
            self.maxp.glyph_count, self.hmtx)
        &&& loca_matches(s, self.table(TAG_LOCA).offset as int, self.maxp.glyph_count,
            self.head.index_to_loc_format, self.loca)
        &&& name_matches(s, self.table(TAG_NAME).offset as int, self.name)
        &&& self.glyph_source == (GlyphSource {
            loca: self.table(TAG_LOCA),
            glyf: self.table(TAG_GLYF),
            index_to_loc_format: self.head.index_to_loc_format,
        })
    }

    /// Decodes a whole font file: the directory with its checksums, then `head`,
    /// `maxp`, `cmap`, `hhea`, `hmtx`, `loca` and `name`; `glyf` must be present.
    /// The first failure is returned.
    pub fn new(data: Vec<u8>) -> (res: Result<TrueTypeFont, FontError>)
        ensures
            match res {
                Ok(f) => open_error(data@) is None && f.wf() && f.file.data@ == data@,
                Err(e) => open_error(data@) == Some(e),
            },
    {
        let ghost s = data@;
        proof {
            reveal(open_error_after_cmap);
        }
        let mut file = FontReader::new(data);
        let offset_sub_table = offset_sub::read(&mut file)?;
        let offset_tables = offset::read(&mut file, offset_sub_table.numtables)?;
        let head_table = match offset_tables.get(TAG_HEAD) {
            Some(t) => t,
            None => { return Err(FontError::MissingTable { tag: TAG_HEAD }); },
        };
        let head = head::read(&mut file, head_table)?;
        let maxp_table = match offset_tables.get(TAG_MAXP) {
            Some(t) => t,
            None => { return Err(FontError::MissingTable { tag: TAG_MAXP }); },
        };
        let maxp = maxp::read(&mut file, maxp_table)?;
        let cmap_table = match offset_tables.get(TAG_CMAP) {
            Some(t) => t,
            None => { return Err(FontError::MissingTable { tag: TAG_CMAP }); },
        };
        let cmap = cmap::read(&mut file, cmap_table)?;
        let hhea_table = match offset_tables.get(TAG_HHEA) {
            Some(t) => t,
            None => { return Err(FontError::MissingTable { tag: TAG_HHEA }); },
        };
        let hhea = hhea::read(&mut file, hhea_table)?;
        let hmtx_table = match offset_tables.get(TAG_HMTX) {
            Some(t) => t,
            None => { return Err(FontError::MissingTable { tag: TAG_HMTX }); },
        };
        let long_count = hhea.num_of_long_hor_metrics;
        if long_count == 0 || long_count > maxp.glyph_count {
            return Err(FontError::BadMetricsCount(long_count));
        }
        let hmtx = hmtx::read(&mut file, hmtx_table, long_count, maxp.glyph_count)?;
        let loca_table = match offset_tables.get(TAG_LOCA) {
            Some(t) => t,
            None => { return Err(FontError::MissingTable { tag: TAG_LOCA }); },
        };
        let loca = loca::read(&mut file, loca_table, maxp.glyph_count, head.index_to_loc_format)?;
        let name_table = match offset_tables.get(TAG_NAME) {
            Some(t) => t,
            None => { return Err(FontError::MissingTable { tag: TAG_NAME }); },
        };
        let name = name::read(&mut file, name_table)?;
        let glyf_table = match offset_tables.get(TAG_GLYF) {
            Some(t) => t,
            None => { return Err(FontError::MissingTable { tag: TAG_GLYF }); },
        };
        let glyph_source = GlyphSource {
            loca: loca_table,
            glyf: glyf_table,
            index_to_loc_format: head.index_to_loc_format,
        };
        Ok(TrueTypeFont {
            file,
            offset_sub_table,
            offset_tables,
            head,
            maxp,
            cmap,
            hhea,
            hmtx,
            loca,
            name,
            glyph_source,
        })
    }

    /// Decodes glyph `index`; compound glyphs may nest as deep as
    /// `maxp.maxComponentDepth`. `Ok(None)` is an empty glyph.
    pub fn glyph(&mut self, index: u32) -> (res: Result<Option<Glyph>, FontError>)
        ensures
            final(self).file.data@ == old(self).file.data@,
            final(self).glyph_source == old(self).glyph_source,
            final(self).maxp == old(self).maxp,
            final(self).wf() == old(self).wf(),
            match res {
                Ok(Some(g)) => glyph_spec(old(self).file.data@, old(self).glyph_source, index,
                    old(self).maxp.max_component_depth as nat)
                    == Ok::<Option<GlyphModel>, FontError>(Some(g.model())) && glyph_facts(g.model()),
                Ok(None) => glyph_spec(old(self).file.data@, old(self).glyph_source, index,
                    old(self).maxp.max_component_depth as nat)
                    == Ok::<Option<GlyphModel>, FontError>(None),
                Err(e) => glyph_spec(old(self).file.data@, old(self).glyph_source, index,
                    old(self).maxp.max_component_depth as nat)
                    == Err::<Option<GlyphModel>, FontError>(e),
            },
    {
        let depth = self.maxp.max_component_depth;
        glyf::read_glyph(&mut self.file, &self.glyph_source, index, depth)
    }
}

/// In a decoded font, every directory entry but `head` has the checksum that
/// its region sums to.
pub proof fn lemma_checksums_hold(f: &TrueTypeFont)
    requires
        f.wf(),
    ensures
        forall|i: int| 0 <= i < f.offset_tables.entries@.len()
            && #[trigger] f.offset_tables.entries@[i].tag != TAG_HEAD
            ==> region_checksum(f.file.data@, f.offset_tables.entries@[i].table.offset,
                f.offset_tables.entries@[i].table.length)
                == f.offset_tables.entries@[i].table.checksum,
{
    let s = f.file.data@;
    let es = f.offset_tables.entries@;
    let n = f.offset_sub_table.numtables as nat;
    assert(directory_prefix(s, 12, n) == Ok::<Seq<offset::TableEntry>, FontError>(es));
    lemma_directory_checksums(s, 12, n);
    assert forall|i: int| 0 <= i < es.len() && #[trigger] es[i].tag != TAG_HEAD implies
        region_checksum(s, es[i].table.offset, es[i].table.length) == es[i].table.checksum by {
        assert(entry_checks(s, directory_prefix(s, 12, n)->Ok_0[i]));
        reveal(entry_checks);
    }
}

/// In a decoded font, `loca` has one entry per glyph plus the sentinel.
pub proof fn lemma_loca_covers_glyphs(f: &TrueTypeFont)
    requires
        f.wf(),
    ensures
        f.loca.spec_len() == f.maxp.glyph_count + 1,
{
}

/// In a decoded font, the full metrics and the trailing bearings of `hmtx`
/// together cover every glyph.
pub proof fn lemma_hmtx_covers_glyphs(f: &TrueTypeFont)
    requires
        f.wf(),
    ensures
        f.hmtx.hmetrics@.len() + f.hmtx.left_side_bearings@.len() == f.maxp.glyph_count,
        f.hmtx.hmetrics@.len() == f.hhea.num_of_long_hor_metrics,
        f.hmtx.hmetrics@.len() >= 1,
{
}

/// In a decoded font, a glyph whose `loca` entry equals the next one is empty:
/// decoding it gives `Ok(None)`, whatever the nesting allowance.
pub proof fn lemma_equal_loca_entries_give_empty_glyph(f: &TrueTypeFont, index: u32, depth: nat)
    requires
        f.wf(),
        index + 1 < f.loca.spec_len(),
        f.loca.spec_offset(index as int) == f.loca.spec_offset(index + 1),
    ensures
        glyph_spec(f.file.data@, f.glyph_source, index, depth) == Ok::<Option<GlyphModel>, FontError>(None),
{
    let s = f.file.data@;
    let src = f.glyph_source;
    assert(glyph_location(s, src, index) == Ok::<Option<int>, FontError>(None));
}

/// The directory entries of a font file whose directory reads.
pub open spec fn entries_of(s: Seq<u8>) -> Seq<offset::TableEntry> {
    directory_prefix(s, 12, offset_subtable_at(s, 0).numtables as nat)->Ok_0
}

/// End of the table directory of a font file.
pub open spec fn directory_end(s: Seq<u8>) -> int {
    12 + 16 * offset_subtable_at(s, 0).numtables
}

/// Whether byte `j` lies in the checked region of some entry among the first `k`
/// that is not `head`.
pub open spec fn in_checked_region(es: Seq<offset::TableEntry>, k: int, j: int) -> bool {
    exists|i: int| 0 <= i < k && (#[trigger] es[i]).tag != TAG_HEAD
        && es[i].table.offset <= j < region_end(es[i])
}

/// Changing a byte of `head.magicNumber` in a font that decodes makes decoding
/// fail with `BadMagic`, when that byte lies past the directory and outside the
/// checked region of every other table.
pub proof fn lemma_flipped_magic_is_refused(s: Seq<u8>, j: int, b: u8)
    requires
        open_error(s) is None,
        lookup(entries_of(s), TAG_HEAD) is Some,
        lookup(entries_of(s), TAG_HEAD)->Some_0.offset + 12 <= j
            < lookup(entries_of(s), TAG_HEAD)->Some_0.offset + 16,
        directory_end(s) <= j,
        !in_checked_region(entries_of(s), entries_of(s).len() as int, j),
        b != s[j],
    ensures
        open_error(s.update(j, b)) == Some(FontError::BadMagic),
{
    let t = s.update(j, b);
    let n = offset_subtable_at(s, 0).numtables as nat;
    let es = entries_of(s);
    let p = lookup(es, TAG_HEAD)->Some_0.offset as int;
    assert(same_bytes(s, t, 0, 12 + 16 * n as int));
    assert(offset_subtable_at(t, 0) == offset_subtable_at(s, 0));
    assert forall|i: int| 0 <= i < es.len() && (#[trigger] es[i]).tag != TAG_HEAD implies
        same_bytes(s, t, es[i].table.offset as int, region_end(es[i])) by {
        assert(!(es[i].table.offset <= j < region_end(es[i])));
    }
    lemma_directory_frame(s, t, 12, n);
    assert forall|i: int| p + 12 <= i < p + 16 && i != j implies byte_or_zero(s, i) == byte_or_zero(t, i) by {}
    lemma_u32_at_sees_byte(s, t, p + 12, j);
}

/// Replacing the four bytes of `head.magicNumber` in a font that decodes by a
/// value other than the magic makes decoding fail with `BadMagic`, when those
/// bytes lie past the directory and outside the checked region of every other
/// table.
pub proof fn lemma_changed_magic_is_refused(s: Seq<u8>, t: Seq<u8>)
    requires
        open_error(s) is None,
        lookup(entries_of(s), TAG_HEAD) is Some,
        directory_end(s) <= lookup(entries_of(s), TAG_HEAD)->Some_0.offset + 12,
        forall|j: int| lookup(entries_of(s), TAG_HEAD)->Some_0.offset + 12 <= j
            < lookup(entries_of(s), TAG_HEAD)->Some_0.offset + 16
            ==> !in_checked_region(entries_of(s), entries_of(s).len() as int, j),
        t.len() == s.len(),
        forall|i: int| 0 <= i < s.len() && !(lookup(entries_of(s), TAG_HEAD)->Some_0.offset + 12 <= i
            < lookup(entries_of(s), TAG_HEAD)->Some_0.offset + 16) ==> t[i] == s[i],
        u32_at(t, lookup(entries_of(s), TAG_HEAD)->Some_0.offset + 12) != HEAD_MAGIC,
    ensures
        open_error(t) == Some(FontError::BadMagic),
{
    let n = offset_subtable_at(s, 0).numtables as nat;
    let es = entries_of(s);
    let p = lookup(es, TAG_HEAD)->Some_0.offset as int;
    assert(same_bytes(s, t, 0, 12 + 16 * n as int));
    lemma_header_frame(s, t);
    assert forall|k: int| 0 <= k < es.len() && (#[trigger] es[k]).tag != TAG_HEAD implies
        same_bytes(s, t, es[k].table.offset as int, region_end(es[k])) by {
        assert forall|i: int| es[k].table.offset <= i < region_end(es[k]) implies
            byte_or_zero(s, i) == byte_or_zero(t, i) by {
            if p + 12 <= i < p + 16 {
                assert(in_checked_region(es, es.len() as int, i));
            }
        }
    }
    lemma_directory_frame(s, t, 12, n);
    assert(head_spec(s, p) is Ok);
}

/// A font that decodes has a file header and lists at least one table.
proof fn lemma_decoded_font_lists_tables(s: Seq<u8>)
    requires
        open_error(s) is None,
    ensures
        s.len() >= 12,
        offset_subtable_at(s, 0).numtables > 0,
{
    if s.len() >= 12 && offset_subtable_at(s, 0).numtables == 0 {
        assert(directory_prefix(s, 12, 0) == Ok::<Seq<offset::TableEntry>, FontError>(Seq::empty()));
        assert(lookup(Seq::<offset::TableEntry>::empty(), TAG_HEAD) is None);
    }
}

/// Two files whose first twelve bytes agree have the same file header.
proof fn lemma_header_frame(s: Seq<u8>, t: Seq<u8>)
    requires
        same_bytes(s, t, 0, 12),
    ensures
        offset_subtable_at(t, 0) == offset_subtable_at(s, 0),
{
    assert(byte_or_zero(s, 0) == byte_or_zero(t, 0));
    assert(byte_or_zero(s, 1) == byte_or_zero(t, 1));
    assert(byte_or_zero(s, 2) == byte_or_zero(t, 2));
    assert(byte_or_zero(s, 3) == byte_or_zero(t, 3));
    assert(byte_or_zero(s, 4) == byte_or_zero(t, 4));
    assert(byte_or_zero(s, 5) == byte_or_zero(t, 5));
    assert(byte_or_zero(s, 6) == byte_or_zero(t, 6));
    assert(byte_or_zero(s, 7) == byte_or_zero(t, 7));
    assert(byte_or_zero(s, 8) == byte_or_zero(t, 8));
    assert(byte_or_zero(s, 9) == byte_or_zero(t, 9));
    assert(byte_or_zero(s, 10) == byte_or_zero(t, 10));
    assert(byte_or_zero(s, 11) == byte_or_zero(t, 11));
}

/// Changing one byte of the checked region of table `i` (not `head`) in a font
/// that decodes makes decoding fail with `ChecksumMismatch` for that table, when
/// the byte lies past the directory and outside the checked regions of the
/// tables listed before it.
pub proof fn lemma_corrupt_byte_is_detected(s: Seq<u8>, i: int, j: int, b: u8)
    requires
        open_error(s) is None,
        0 <= i < entries_of(s).len(),
        entries_of(s)[i].tag != TAG_HEAD,
        entries_of(s)[i].table.offset <= j < entries_of(s)[i].table.offset + entries_of(s)[i].table.length,
        j < s.len(),
        directory_end(s) <= j,
        !in_checked_region(entries_of(s), i, j),
        b != s[j],
    ensures
        open_error(s.update(j, b)) == Some(FontError::ChecksumMismatch { tag: entries_of(s)[i].tag }),
{
    lemma_decoded_font_lists_tables(s);
    let t = s.update(j, b);
    let n = offset_subtable_at(s, 0).numtables as nat;
    assert(same_bytes(s, t, 0, 12));
    lemma_header_frame(s, t);
    lemma_corrupt_directory(s, b, n, i, j);
}

/// The directory part of `lemma_corrupt_byte_is_detected`.
proof fn lemma_corrupt_directory(s: Seq<u8>, b: u8, n: nat, i: int, j: int)
    requires
        directory_prefix(s, 12, n) is Ok,
        0 <= i < directory_prefix(s, 12, n)->Ok_0.len(),
        directory_prefix(s, 12, n)->Ok_0[i].tag != TAG_HEAD,
        directory_prefix(s, 12, n)->Ok_0[i].table.offset <= j
            < directory_prefix(s, 12, n)->Ok_0[i].table.offset + directory_prefix(s, 12, n)->Ok_0[i].table.length,
        j < s.len(),
        12 + 16 * n <= j,
        !in_checked_region(directory_prefix(s, 12, n)->Ok_0, i, j),
        b != s[j],
    ensures
        directory_prefix(s.update(j, b), 12, n) == Err::<Seq<offset::TableEntry>, FontError>(
            FontError::ChecksumMismatch { tag: directory_prefix(s, 12, n)->Ok_0[i].tag }),
{
    let t = s.update(j, b);
    let es = directory_prefix(s, 12, n)->Ok_0;
    lemma_directory_prefixes(s, 12, n, n);
    lemma_directory_prefixes(s, 12, i as nat, n);
    lemma_directory_prefixes(s, 12, (i + 1) as nat, n);
    let pre = directory_prefix(s, 12, i as nat)->Ok_0;
    assert(same_bytes(s, t, 12, 12 + 16 * i));
    assert forall|k: int| 0 <= k < pre.len() && (#[trigger] pre[k]).tag != TAG_HEAD implies
        same_bytes(s, t, pre[k].table.offset as int, region_end(pre[k])) by {
        assert(pre[k] == es[k]);
        assert(!(es[k].table.offset <= j < region_end(es[k])));
    }
    lemma_directory_frame(s, t, 12, i as nat);
    let q = 12 + 16 * i;
    let e = entry_at(s, q);
    let post = directory_prefix(s, 12, (i + 1) as nat)->Ok_0;
    assert(post.last() == e);
    assert(post.last() == es[i]);
    assert(same_bytes(s, t, q, q + 16));
    assert(entry_at(t, q) == e) by {
        offset::lemma_u32_at_frame(s, t, q);
        offset::lemma_u32_at_frame(s, t, q + 4);
        offset::lemma_u32_at_frame(s, t, q + 8);
        offset::lemma_u32_at_frame(s, t, q + 12);
    }
    lemma_directory_checksums(s, 12, (i + 1) as nat);
    assert(entry_checks(s, post[i]));
    assert(!entry_checks(t, e)) by {
        reveal(entry_checks);
        assert forall|k: int| e.table.offset <= k < e.table.offset + 4 * offset::word_count(e.table.length)
            && k != j implies byte_or_zero(s, k) == byte_or_zero(t, k) by {}
        lemma_table_sum_sees_byte(s, t, e.table.offset as int, offset::word_count(e.table.length), j);
    }
    assert(directory_prefix(t, 12, (i + 1) as nat)
        == Err::<Seq<offset::TableEntry>, FontError>(FontError::ChecksumMismatch { tag: e.tag }));
    lemma_directory_error_persists(t, 12, (i + 1) as nat, n);
}

/// Cutting a font that decodes inside its file header or its first directory
/// record makes decoding fail with `UnexpectedEndOfFile`.
pub proof fn lemma_truncated_header_is_refused(s: Seq<u8>, k: int)
    requires
        open_error(s) is None,
        0 <= k < 28,
    ensures
        open_error(s.take(k)) == Some(FontError::UnexpectedEndOfFile),
{
    lemma_decoded_font_lists_tables(s);
    let t = s.take(k);
    if k >= 12 {
        let n = offset_subtable_at(s, 0).numtables as nat;
        assert(same_bytes(s, t, 0, 12));
        lemma_header_frame(s, t);
        assert(directory_prefix(t, 12, 0) == Ok::<Seq<offset::TableEntry>, FontError>(Seq::empty()));
        assert(directory_prefix(t, 12, 1) == Err::<Seq<offset::TableEntry>, FontError>(FontError::UnexpectedEndOfFile));
        lemma_directory_error_persists(t, 12, 1, n);
    }
}

} // verus!
