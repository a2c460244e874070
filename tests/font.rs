use lipi::error::{FontError, GlyphFault};
use lipi::tables::cmap::{CmapFormatTable, CmapPlatform};
use lipi::tables::loca::Loca;
use lipi::tables::offset::{TAG_CMAP, TAG_GLYF, TAG_HEAD, TAG_HMTX, TAG_LOCA, TAG_MAXP, TAG_NAME};
use lipi::truetype::TrueTypeFont;

fn u16s(out: &mut Vec<u8>, values: &[u16]) {
    for v in values {
        out.extend_from_slice(&v.to_be_bytes());
    }
}

fn u32s(out: &mut Vec<u8>, values: &[u32]) {
    for v in values {
        out.extend_from_slice(&v.to_be_bytes());
    }
}

fn tag(name: &[u8; 4]) -> u32 {
    u32::from_be_bytes(*name)
}

fn checksum(region: &[u8]) -> u32 {
    let mut sum: u32 = 0;
    for chunk in region.chunks(4) {
        let mut word = [0u8; 4];
        word[..chunk.len()].copy_from_slice(chunk);
        sum = sum.wrapping_add(u32::from_be_bytes(word));
    }
    sum
}

/// A font file holding `tables` in order, each aligned to four bytes.
fn assemble(tables: &[(&[u8; 4], Vec<u8>)]) -> Vec<u8> {
    let mut out = Vec::new();
    u32s(&mut out, &[0x0001_0000]);
    u16s(&mut out, &[tables.len() as u16, 0, 0, 0]);
    let mut offset = 12 + 16 * tables.len();
    let mut body = Vec::new();
    for (name, data) in tables {
        u32s(&mut out, &[tag(name), checksum(data), offset as u32, data.len() as u32]);
        let mut padded = data.clone();
        while padded.len() % 4 != 0 {
            padded.push(0);
        }
        offset += padded.len();
        body.extend_from_slice(&padded);
    }
    out.extend_from_slice(&body);
    out
}

fn head_table(index_to_loc_format: i16) -> Vec<u8> {
    let mut t = Vec::new();
    u32s(&mut t, &[0x0001_0000, 0x0002_8000, 0, 0x5F0F3CF5]);
    u16s(&mut t, &[0x000B, 1000]);
    u32s(&mut t, &[0, 0xC762_EB80, 0, 0xC762_EB80]);
    u16s(&mut t, &[0, 0xFFF6, 100, 200, 0, 8, 2, index_to_loc_format as u16, 0]);
    t
}

fn maxp_table(glyph_count: u16, depth: u16) -> Vec<u8> {
    let mut t = Vec::new();
    u32s(&mut t, &[0x0001_0000]);
    u16s(&mut t, &[glyph_count, 10, 2, 0, 0, 2, 0, 0, 0, 0, 0, 0, 1, depth]);
    t
}

fn hhea_table(long_metrics: u16) -> Vec<u8> {
    let mut t = Vec::new();
    u32s(&mut t, &[0x0001_0000]);
    u16s(&mut t, &[800, 0xFF38, 90, 1200, 0, 0, 1100, 1, 0, 0, 0, 0, 0, 0, 0, long_metrics]);
    t
}

fn hmtx_table() -> Vec<u8> {
    let mut t = Vec::new();
    u16s(&mut t, &[500, 10, 600, 20, 30, 40]);
    t
}

fn cmap_table_format4() -> Vec<u8> {
    let mut t = Vec::new();
    u16s(&mut t, &[0, 1]);
    u16s(&mut t, &[3, 1]);
    u32s(&mut t, &[12]);
    u16s(&mut t, &[4, 24, 0, 2, 2, 0, 0, 0xFFFF, 0, 0xFFFF, 1, 0]);
    t
}

fn name_table() -> Vec<u8> {
    let mut t = Vec::new();
    u16s(&mut t, &[0, 1, 18, 3, 1, 0x409, 4, 2, 0]);
    t.extend_from_slice(&[0, 0]);
    t
}

/// Glyph 0: simple, four points. Glyph 1: simple, one point (4, 8).
/// Glyph 2: empty. Glyph 3: compound placing glyph 1 at half scale, offset (10, -5).
fn glyphs() -> Vec<Vec<u8>> {
    let mut g0 = Vec::new();
    u16s(&mut g0, &[1, 0, 0, 100, 100, 3, 0]);
    g0.extend_from_slice(&[0x08, 0x02, 0x05]);
    u16s(&mut g0, &[10, 20, 0xFFFB, 7, 1, 2, 3]);
    g0.push(4);
    let mut g1 = Vec::new();
    u16s(&mut g1, &[1, 0, 0, 4, 8, 0, 0]);
    g1.push(0x01);
    u16s(&mut g1, &[4, 8]);
    let mut g3 = Vec::new();
    u16s(&mut g3, &[0xFFFF, 0, 0, 12, 12]);
    u16s(&mut g3, &[0x000B, 1, 10, 0xFFFB, 0x2000]);
    vec![g0, g1, Vec::new(), g3]
}

/// `glyf` and the matching short `loca` for `glyphs`.
fn glyf_and_loca(glyphs: &[Vec<u8>]) -> (Vec<u8>, Vec<u8>) {
    let mut glyf = Vec::new();
    let mut loca = Vec::new();
    for g in glyphs {
        u16s(&mut loca, &[(glyf.len() / 2) as u16]);
        glyf.extend_from_slice(g);
        if glyf.len() % 2 != 0 {
            glyf.push(0);
        }
    }
    u16s(&mut loca, &[(glyf.len() / 2) as u16]);
    (glyf, loca)
}

fn sample_font_with(head: Vec<u8>, maxp: Vec<u8>, cmap: Vec<u8>, hhea: Vec<u8>) -> Vec<u8> {
    let (glyf, loca) = glyf_and_loca(&glyphs());
    assemble(&[
        (b"cmap", cmap),
        (b"glyf", glyf),
        (b"head", head),
        (b"hhea", hhea),
        (b"hmtx", hmtx_table()),
        (b"loca", loca),
        (b"maxp", maxp),
        (b"name", name_table()),
    ])
}

fn sample_font() -> Vec<u8> {
    sample_font_with(head_table(0), maxp_table(4, 1), cmap_table_format4(), hhea_table(2))
}

fn entry_offset(bytes: &[u8], name: &[u8; 4]) -> usize {
    let count = u16::from_be_bytes([bytes[4], bytes[5]]) as usize;
    for i in 0..count {
        let at = 12 + 16 * i;
        if bytes[at..at + 4] == name[..] {
            return u32::from_be_bytes([bytes[at + 8], bytes[at + 9], bytes[at + 10], bytes[at + 11]])
                as usize;
        }
    }
    panic!("no such table")
}

#[test]
fn opens_sample_font() {
    let font = TrueTypeFont::new(sample_font()).unwrap();
    assert_eq!(font.offset_sub_table.numtables, 8);
    assert_eq!(font.head.magic_number, 0x5F0F3CF5);
    assert_eq!(font.head.font_revision.raw, 0x0002_8000);
    assert_eq!(font.head.units_per_em, 1000);
    assert_eq!(font.head.created, 1_262_304_000);
    assert_eq!(font.head.ymin, -10);
    assert_eq!(font.maxp.glyph_count, 4);
    assert_eq!(font.maxp.max_component_depth, 1);
    assert_eq!(font.hhea.descent, -200);
    assert_eq!(font.hhea.num_of_long_hor_metrics, 2);
    assert_eq!(font.name.count, 1);
    assert_eq!(font.name.name_records[0].language_id, 0x409);
    assert_eq!(font.cmap.encodings.len(), 1);
    assert_eq!(font.cmap.encodings[0].platform_id, CmapPlatform::Microsoft);
    match &font.cmap.format_table {
        CmapFormatTable::Format4(t) => {
            assert_eq!(t.segments.len(), 1);
            assert_eq!(t.segments[0].end_code, 0xFFFF);
            assert_eq!(t.segments[0].id_delta, 1);
        }
        _ => panic!("expected format 4"),
    }
}

#[test]
fn loca_has_sentinel() {
    let font = TrueTypeFont::new(sample_font()).unwrap();
    match &font.loca {
        Loca::Short(v) => assert_eq!(v.len(), font.maxp.glyph_count as usize + 1),
        Loca::Long(_) => panic!("expected short offsets"),
    }
    assert_eq!(font.loca.len(), 5);
}

#[test]
fn hmtx_covers_all_glyphs() {
    let font = TrueTypeFont::new(sample_font()).unwrap();
    assert_eq!(font.hmtx.hmetrics.len(), 2);
    assert_eq!(font.hmtx.hmetrics[1].advance_width, 600);
    assert_eq!(font.hmtx.left_side_bearings, vec![30, 40]);
    assert_eq!(font.hmtx.hmetrics.len() + font.hmtx.left_side_bearings.len(), 4);
}

#[test]
fn directory_checksums_hold() {
    let bytes = sample_font();
    let font = TrueTypeFont::new(bytes.clone()).unwrap();
    for e in &font.offset_tables.entries {
        if e.tag != TAG_HEAD {
            let start = e.table.offset as usize;
            let region = &bytes[start..start + e.table.length as usize];
            assert_eq!(checksum(region), e.table.checksum);
        }
    }
    assert_eq!(font.offset_tables.get(TAG_CMAP).map(|t| t.offset), Some(140));
    assert_eq!(font.offset_tables.get(TAG_GLYF).map(|t| t.offset), Some(176));
    assert_eq!(font.offset_tables.get(0x7878_7878), None);
}

#[test]
fn simple_glyph_decodes_deltas() {
    let mut font = TrueTypeFont::new(sample_font()).unwrap();
    let g = font.glyph(0).unwrap().unwrap();
    assert_eq!(g.number_of_contours, 1);
    assert_eq!((g.xmax, g.ymax), (100, 100));
    let d = &g.glyph_data;
    assert_eq!(d.end_pts_of_contours, vec![3]);
    assert_eq!(d.instruction_length, Some(0));
    assert_eq!(d.flags, vec![0x08, 0x08, 0x08, 0x05]);
    assert_eq!(d.x_coordinates, vec![10, 20, -5, 7]);
    assert_eq!(d.y_coordinates, vec![1, 2, 3, -4]);
}

#[test]
fn compound_glyph_places_component() {
    let mut font = TrueTypeFont::new(sample_font()).unwrap();
    let g = font.glyph(3).unwrap().unwrap();
    assert_eq!(g.number_of_contours, -1);
    let d = &g.glyph_data;
    assert_eq!(d.end_pts_of_contours, vec![0]);
    assert_eq!(d.flags, vec![0x01]);
    assert_eq!(d.x_coordinates, vec![12]);
    assert_eq!(d.y_coordinates, vec![-1]);
    assert_eq!(d.instructions, None);
}

#[test]
fn equal_loca_entries_give_empty_glyph() {
    let mut font = TrueTypeFont::new(sample_font()).unwrap();
    assert!(font.glyph(2).unwrap().is_none());
    assert!(font.glyph(1).unwrap().is_some());
}

#[test]
fn glyph_past_loca_is_end_of_file() {
    let mut font = TrueTypeFont::new(sample_font()).unwrap();
    assert!(font.glyph(1_000_000).is_err());
}

#[test]
fn nested_compound_beyond_depth_is_refused() {
    let mut gs = glyphs();
    // Glyph 3 now references itself.
    gs[3] = Vec::new();
    u16s(&mut gs[3], &[0xFFFF, 0, 0, 12, 12, 0x0003, 3, 0, 0]);
    let (glyf, loca) = glyf_and_loca(&gs);
    let bytes = assemble(&[
        (b"cmap", cmap_table_format4()),
        (b"glyf", glyf),
        (b"head", head_table(0)),
        (b"hhea", hhea_table(2)),
        (b"hmtx", hmtx_table()),
        (b"loca", loca),
        (b"maxp", maxp_table(4, 1)),
        (b"name", name_table()),
    ]);
    let mut font = TrueTypeFont::new(bytes).unwrap();
    assert_eq!(
        font.glyph(3).map(|g| g.is_some()),
        Err(FontError::MalformedGlyph { index: 3, detail: GlyphFault::TooDeep })
    );
}

#[test]
fn contour_count_below_minus_one_is_refused() {
    let mut gs = glyphs();
    gs[1] = Vec::new();
    u16s(&mut gs[1], &[0xFFFE, 0, 0, 0, 0]);
    let (glyf, loca) = glyf_and_loca(&gs);
    let bytes = assemble(&[
        (b"cmap", cmap_table_format4()),
        (b"glyf", glyf),
        (b"head", head_table(0)),
        (b"hhea", hhea_table(2)),
        (b"hmtx", hmtx_table()),
        (b"loca", loca),
        (b"maxp", maxp_table(4, 1)),
        (b"name", name_table()),
    ]);
    let mut font = TrueTypeFont::new(bytes).unwrap();
    assert_eq!(
        font.glyph(1).map(|g| g.is_some()),
        Err(FontError::MalformedGlyph { index: 1, detail: GlyphFault::BadContourCount })
    );
}

#[test]
fn long_loca_format() {
    let (glyf, short) = glyf_and_loca(&glyphs());
    let mut loca = Vec::new();
    for pair in short.chunks(2) {
        u32s(&mut loca, &[2 * u16::from_be_bytes([pair[0], pair[1]]) as u32]);
    }
    let bytes = assemble(&[
        (b"cmap", cmap_table_format4()),
        (b"glyf", glyf),
        (b"head", head_table(1)),
        (b"hhea", hhea_table(2)),
        (b"hmtx", hmtx_table()),
        (b"loca", loca),
        (b"maxp", maxp_table(4, 1)),
        (b"name", name_table()),
    ]);
    let mut font = TrueTypeFont::new(bytes).unwrap();
    assert!(matches!(font.loca, Loca::Long(_)));
    assert_eq!(font.glyph(3).unwrap().unwrap().glyph_data.x_coordinates, vec![12]);
    assert!(font.glyph(2).unwrap().is_none());
}

#[test]
fn unsupported_loca_format() {
    let bytes =
        sample_font_with(head_table(2), maxp_table(4, 1), cmap_table_format4(), hhea_table(2));
    assert_eq!(TrueTypeFont::new(bytes).err(), Some(FontError::UnsupportedLocaFormat(2)));
}

#[test]
fn bad_magic_is_refused() {
    let mut bytes = sample_font();
    let at = entry_offset(&bytes, b"head") + 12;
    bytes[at] ^= 0x01;
    assert_eq!(TrueTypeFont::new(bytes).err(), Some(FontError::BadMagic));
}

#[test]
fn corrupt_byte_gives_checksum_mismatch() {
    let mut bytes = sample_font();
    let at = entry_offset(&bytes, b"maxp") + 5;
    bytes[at] ^= 0x40;
    assert_eq!(
        TrueTypeFont::new(bytes).err(),
        Some(FontError::ChecksumMismatch { tag: TAG_MAXP })
    );
}

#[test]
fn truncated_directory_is_end_of_file() {
    let bytes = sample_font();
    for cut in [0usize, 5, 11, 12, 20, 27] {
        assert_eq!(
            TrueTypeFont::new(bytes[..cut].to_vec()).err(),
            Some(FontError::UnexpectedEndOfFile)
        );
    }
}

#[test]
fn truncated_name_table_is_end_of_file() {
    // `name` is the last table and ends with zero bytes, so cutting them leaves its
    // zero-padded checksum unchanged and the record reads run out of bytes.
    let bytes = sample_font();
    let cut = bytes.len() - 4;
    assert_eq!(TrueTypeFont::new(bytes[..cut].to_vec()).err(), Some(FontError::UnexpectedEndOfFile));
}

#[test]
fn missing_table_is_reported() {
    let (glyf, loca) = glyf_and_loca(&glyphs());
    let bytes = assemble(&[
        (b"cmap", cmap_table_format4()),
        (b"glyf", glyf),
        (b"head", head_table(0)),
        (b"hhea", hhea_table(2)),
        (b"hmtx", hmtx_table()),
        (b"loca", loca),
        (b"name", name_table()),
    ]);
    assert_eq!(TrueTypeFont::new(bytes).err(), Some(FontError::MissingTable { tag: TAG_MAXP }));
}

#[test]
fn missing_glyf_is_reported() {
    let (_, loca) = glyf_and_loca(&glyphs());
    let bytes = assemble(&[
        (b"cmap", cmap_table_format4()),
        (b"head", head_table(0)),
        (b"hhea", hhea_table(2)),
        (b"hmtx", hmtx_table()),
        (b"loca", loca),
        (b"maxp", maxp_table(4, 1)),
        (b"name", name_table()),
    ]);
    assert_eq!(TrueTypeFont::new(bytes).err(), Some(FontError::MissingTable { tag: TAG_GLYF }));
}

#[test]
fn bad_metrics_count_is_refused() {
    let bytes =
        sample_font_with(head_table(0), maxp_table(4, 1), cmap_table_format4(), hhea_table(5));
    assert_eq!(TrueTypeFont::new(bytes).err(), Some(FontError::BadMetricsCount(5)));
    let bytes =
        sample_font_with(head_table(0), maxp_table(4, 1), cmap_table_format4(), hhea_table(0));
    assert_eq!(TrueTypeFont::new(bytes).err(), Some(FontError::BadMetricsCount(0)));
}

#[test]
fn unsupported_cmap_platform() {
    let mut cmap = cmap_table_format4();
    cmap[4..6].copy_from_slice(&2u16.to_be_bytes());
    let bytes = sample_font_with(head_table(0), maxp_table(4, 1), cmap, hhea_table(2));
    assert_eq!(TrueTypeFont::new(bytes).err(), Some(FontError::UnsupportedCmapPlatform(2)));
}

#[test]
fn unsupported_cmap_format() {
    let mut cmap = cmap_table_format4();
    cmap[12..14].copy_from_slice(&14u16.to_be_bytes());
    let bytes = sample_font_with(head_table(0), maxp_table(4, 1), cmap, hhea_table(2));
    assert_eq!(TrueTypeFont::new(bytes).err(), Some(FontError::UnsupportedCmapFormat(14)));
}

#[test]
fn cmap_subtable_found_through_encoding_offset() {
    // Two encodings; the Macintosh one comes first, the Unicode one is selected.
    let mut cmap = Vec::new();
    u16s(&mut cmap, &[0, 2]);
    u16s(&mut cmap, &[1, 0]);
    u32s(&mut cmap, &[20]);
    u16s(&mut cmap, &[0, 3]);
    u32s(&mut cmap, &[282]);
    u16s(&mut cmap, &[0, 262, 0]);
    cmap.extend_from_slice(&[7u8; 256]);
    u16s(&mut cmap, &[6, 14, 0, 0x20, 2, 5, 9]);
    let bytes = sample_font_with(head_table(0), maxp_table(4, 1), cmap, hhea_table(2));
    let font = TrueTypeFont::new(bytes).unwrap();
    match &font.cmap.format_table {
        CmapFormatTable::Format6(t) => {
            assert_eq!(t.first_code, 0x20);
            assert_eq!(t.glyph_index_array, vec![5, 9]);
        }
        _ => panic!("expected format 6"),
    }
}

#[test]
fn opening_twice_gives_equal_tables() {
    let a = TrueTypeFont::new(sample_font()).unwrap();
    let b = TrueTypeFont::new(sample_font()).unwrap();
    assert_eq!(a.head, b.head);
    assert_eq!(a.maxp, b.maxp);
    assert_eq!(a.hhea, b.hhea);
    assert_eq!(a.offset_tables.entries, b.offset_tables.entries);
}

#[test]
fn truncation_reaching_another_region_gives_checksum_mismatch() {
    // Cutting inside the directory zeroes the regions of the tables already listed.
    let bytes = sample_font();
    assert_eq!(
        TrueTypeFont::new(bytes[..100].to_vec()).err(),
        Some(FontError::ChecksumMismatch { tag: TAG_CMAP })
    );
}

#[test]
fn tags_spell_their_names() {
    assert_eq!(TAG_CMAP, tag(b"cmap"));
    assert_eq!(TAG_HMTX, tag(b"hmtx"));
    assert_eq!(TAG_LOCA, tag(b"loca"));
    assert_eq!(TAG_NAME, tag(b"name"));
}

#[test]
fn component_with_undecodable_glyph_is_malformed() {
    let mut gs = glyphs();
    // Glyph 3 now references glyph 40000, whose `loca` entry lies past the file.
    gs[3] = Vec::new();
    u16s(&mut gs[3], &[0xFFFF, 0, 0, 12, 12, 0x0003, 40000, 0, 0]);
    let (glyf, loca) = glyf_and_loca(&gs);
    let bytes = assemble(&[
        (b"cmap", cmap_table_format4()),
        (b"glyf", glyf),
        (b"head", head_table(0)),
        (b"hhea", hhea_table(2)),
        (b"hmtx", hmtx_table()),
        (b"loca", loca),
        (b"maxp", maxp_table(4, 1)),
        (b"name", name_table()),
    ]);
    let mut font = TrueTypeFont::new(bytes).unwrap();
    assert_eq!(
        font.glyph(3).map(|g| g.is_some()),
        Err(FontError::MalformedGlyph { index: 40000, detail: GlyphFault::BadComponent })
    );
}

#[test]
fn whole_magic_number_changed_is_refused() {
    let mut bytes = sample_font();
    let at = entry_offset(&bytes, b"head") + 12;
    bytes[at..at + 4].copy_from_slice(&0x1234_5678u32.to_be_bytes());
    assert_eq!(TrueTypeFont::new(bytes).err(), Some(FontError::BadMagic));
}
