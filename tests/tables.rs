use lipi::error::FontError;
use lipi::reader::FontReader;
use lipi::tables::cmap::{
    cmap_encoding_tables, cmap_format_table, read_cmap_format0, read_cmap_format100,
    read_cmap_format120, read_cmap_format2, read_cmap_format4, read_cmap_format6,
    read_cmap_format80, select_encoding, CmapEncoding, CmapFormatTable, CmapPlatform,
};
use lipi::tables::offset::{OffsetTable, TableDirectory, TableEntry};
use lipi::tables::{head, hhea, hmtx, loca, maxp, name, offset, offset_sub};

fn be16(values: &[u16]) -> Vec<u8> {
    values.iter().flat_map(|v| v.to_be_bytes()).collect()
}

fn be32(values: &[u32]) -> Vec<u8> {
    values.iter().flat_map(|v| v.to_be_bytes()).collect()
}

fn at(offset: u32, length: u32) -> OffsetTable {
    OffsetTable { checksum: 0, offset, length }
}

#[test]
fn cmap_format0_reads_256_bytes() {
    let mut bytes = be16(&[262, 1]);
    bytes.extend((0..=255u8).collect::<Vec<u8>>());
    let t = read_cmap_format0(&mut FontReader::new(bytes.clone())).unwrap();
    assert_eq!((t.format, t.length, t.language_code), (0, 262, 1));
    assert_eq!(t.glyph_index_array.len(), 256);
    assert_eq!(t.glyph_index_array[200], 200);
    bytes.pop();
    assert!(read_cmap_format0(&mut FontReader::new(bytes)).is_err());
}

#[test]
fn cmap_format2_reads_subheader_keys() {
    let mut bytes = be16(&[518, 0]);
    bytes.extend(be16(&(0..256u16).map(|k| k * 8).collect::<Vec<u16>>()));
    let t = read_cmap_format2(&mut FontReader::new(bytes)).unwrap();
    assert_eq!(t.format, 2);
    assert_eq!(t.sub_header_keys[3], 24);
    assert_eq!(t.sub_header_keys.len(), 256);
}

#[test]
fn cmap_format4_builds_segments() {
    let bytes = be16(&[32, 0, 4, 4, 1, 0, 0x0041, 0xFFFF, 0, 0x0020, 0xFFFF, 3, 1, 0, 0]);
    let t = read_cmap_format4(&mut FontReader::new(bytes)).unwrap();
    assert_eq!(t.segcount_x2, 4);
    assert_eq!(t.segments.len(), 2);
    assert_eq!(
        (t.segments[0].start_code, t.segments[0].end_code, t.segments[0].id_delta),
        (0x20, 0x41, 3)
    );
    assert_eq!((t.segments[1].start_code, t.segments[1].end_code), (0xFFFF, 0xFFFF));
}

#[test]
fn cmap_format6_reads_entries() {
    let bytes = be16(&[16, 0, 0x30, 3, 7, 8, 9]);
    let t = read_cmap_format6(&mut FontReader::new(bytes)).unwrap();
    assert_eq!((t.first_code, t.entry_count), (0x30, 3));
    assert_eq!(t.glyph_index_array, vec![7, 8, 9]);
    let short = be16(&[16, 0, 0x30, 3, 7, 8]);
    assert_eq!(
        read_cmap_format6(&mut FontReader::new(short)).err(),
        Some(FontError::UnexpectedEndOfFile)
    );
}

#[test]
fn cmap_format8_reads_groups() {
    let mut bytes = be16(&[0]);
    bytes.extend(be32(&[8208 + 12, 0]));
    let mut is_32 = vec![0u8; 8192];
    is_32[1] = 0x80;
    bytes.extend(is_32);
    bytes.extend(be32(&[1, 0x10000, 0x100FF, 5]));
    let t = read_cmap_format80(&mut FontReader::new(bytes)).unwrap();
    assert_eq!(t.format, 8);
    assert_eq!(t.is_32[1], 0x80);
    assert_eq!(t.n_groups, 1);
    assert_eq!(t.groups[0].end_char_code, 0x100FF);
    assert_eq!(t.groups[0].start_glyph_code, 5);
}

#[test]
fn cmap_format10_counts_glyphs_from_length() {
    let mut bytes = be16(&[0]);
    bytes.extend(be32(&[24, 0, 0x1000, 2]));
    bytes.extend(be16(&[11, 12]));
    let t = read_cmap_format100(&mut FontReader::new(bytes)).unwrap();
    assert_eq!(t.format, 10);
    assert_eq!((t.start_char_code, t.num_chars), (0x1000, 2));
    assert_eq!(t.glyphs, vec![11, 12]);
}

#[test]
fn cmap_format12_is_labelled_twelve() {
    let mut bytes = be16(&[0]);
    bytes.extend(be32(&[28, 0, 1, 0x20, 0x7E, 1]));
    let t = read_cmap_format120(&mut FontReader::new(bytes)).unwrap();
    assert_eq!(t.format, 12);
    assert_eq!(t.groups.len(), 1);
    assert_eq!(t.groups[0].start_char_code, 0x20);
}

#[test]
fn cmap_dispatch_by_format() {
    let bytes = be16(&[6, 12, 0, 0x41, 1, 42]);
    match cmap_format_table(&mut FontReader::new(bytes)).unwrap() {
        CmapFormatTable::Format6(t) => assert_eq!(t.glyph_index_array, vec![42]),
        _ => panic!("expected format 6"),
    }
    assert_eq!(
        cmap_format_table(&mut FontReader::new(be16(&[3, 0]))).err(),
        Some(FontError::UnsupportedCmapFormat(3))
    );
    assert_eq!(
        cmap_format_table(&mut FontReader::new(vec![0])).err(),
        Some(FontError::UnexpectedEndOfFile)
    );
}

#[test]
fn cmap_encodings_map_platforms() {
    let mut bytes = be16(&[0, 3]);
    bytes.extend(be32(&[20]));
    bytes.extend(be16(&[1, 0]));
    bytes.extend(be32(&[40]));
    let v = cmap_encoding_tables(&mut FontReader::new(bytes.clone()), 2).unwrap();
    assert_eq!(v[0].platform_id, CmapPlatform::Unicode);
    assert_eq!(v[0].offset, 20);
    assert_eq!(v[1].platform_id, CmapPlatform::Macintosh);
    let mut bad = be16(&[7, 0]);
    bad.extend(be32(&[0]));
    assert_eq!(
        cmap_encoding_tables(&mut FontReader::new(bad), 1).err(),
        Some(FontError::UnsupportedCmapPlatform(7))
    );
    assert_eq!(
        cmap_encoding_tables(&mut FontReader::new(bytes), 3).err(),
        Some(FontError::UnexpectedEndOfFile)
    );
}

#[test]
fn encoding_selection_prefers_unicode_or_microsoft() {
    let mac = CmapEncoding { platform_id: CmapPlatform::Macintosh, platform_specific_id: 0, offset: 4 };
    let ms = CmapEncoding { platform_id: CmapPlatform::Microsoft, platform_specific_id: 1, offset: 8 };
    assert_eq!(select_encoding(&vec![mac, ms]), Some(ms));
    assert_eq!(select_encoding(&vec![mac]), Some(mac));
    assert_eq!(select_encoding(&vec![]), None);
}

#[test]
fn offset_subtable_fields() {
    let mut bytes = be32(&[0x0001_0000]);
    bytes.extend(be16(&[9, 128, 3, 16]));
    let t = offset_sub::read(&mut FontReader::new(bytes)).unwrap();
    assert_eq!((t.scalar_type, t.numtables, t.search_range, t.entry_selector, t.range_shift), (0x0001_0000, 9, 128, 3, 16));
}

#[test]
fn directory_last_duplicate_wins() {
    let e = |tag: u32, offset: u32| TableEntry { tag, table: at(offset, 4) };
    let d = TableDirectory { entries: vec![e(1, 10), e(2, 20), e(1, 30)] };
    assert_eq!(d.get(1).map(|t| t.offset), Some(30));
    assert_eq!(d.get(2).map(|t| t.offset), Some(20));
}

#[test]
fn directory_reports_checksum_mismatch() {
    let mut bytes = be32(&[u32::from_be_bytes(*b"abcd"), 0x1234, 16, 4]);
    bytes.extend(be32(&[0x1235]));
    assert_eq!(
        offset::read(&mut FontReader::new(bytes.clone()), 1).err(),
        Some(FontError::ChecksumMismatch { tag: u32::from_be_bytes(*b"abcd") })
    );
    bytes[19] = 0x34;
    bytes[18] = 0x12;
    let d = offset::read(&mut FontReader::new(bytes), 1).unwrap();
    assert_eq!(d.entries.len(), 1);
}

#[test]
fn head_refuses_bad_magic_before_end_of_file() {
    let mut bytes = be32(&[0x0001_0000, 0, 0, 0x5F0F3CF4]);
    assert_eq!(head::read(&mut FontReader::new(bytes.clone()), at(0, 54)).err(), Some(FontError::BadMagic));
    bytes[15] = 0xF5;
    assert_eq!(
        head::read(&mut FontReader::new(bytes), at(0, 54)).err(),
        Some(FontError::UnexpectedEndOfFile)
    );
}

#[test]
fn maxp_and_hhea_need_their_bytes() {
    assert_eq!(
        maxp::read(&mut FontReader::new(vec![0; 31]), at(0, 32)).err(),
        Some(FontError::UnexpectedEndOfFile)
    );
    let m = maxp::read(&mut FontReader::new(vec![0; 32]), at(0, 32)).unwrap();
    assert_eq!(m.glyph_count, 0);
    let mut bytes = vec![0u8; 36];
    bytes[35] = 3;
    let h = hhea::read(&mut FontReader::new(bytes), at(0, 36)).unwrap();
    assert_eq!(h.num_of_long_hor_metrics, 3);
    assert_eq!(
        hhea::read(&mut FontReader::new(vec![0; 40]), at(8, 36)).err(),
        Some(FontError::UnexpectedEndOfFile)
    );
}

#[test]
fn hmtx_splits_metrics() {
    let bytes = be16(&[0, 100, 5, 0xFFFF]);
    let h = hmtx::read(&mut FontReader::new(bytes.clone()), at(2, 8), 1, 2).unwrap();
    assert_eq!(h.hmetrics[0].advance_width, 100);
    assert_eq!(h.hmetrics[0].left_side_bearing, 5);
    assert_eq!(h.left_side_bearings, vec![-1]);
    assert!(hmtx::read(&mut FontReader::new(bytes), at(2, 8), 1, 4).is_err());
}

#[test]
fn loca_formats() {
    let bytes = be16(&[0, 4, 9]);
    match loca::read(&mut FontReader::new(bytes.clone()), at(0, 6), 2, 0).unwrap() {
        loca::Loca::Short(v) => assert_eq!(v, vec![0, 4, 9]),
        loca::Loca::Long(_) => panic!("expected short offsets"),
    }
    assert_eq!(
        loca::read(&mut FontReader::new(bytes.clone()), at(0, 6), 2, 1).err(),
        Some(FontError::UnexpectedEndOfFile)
    );
    assert_eq!(
        loca::read(&mut FontReader::new(bytes), at(0, 6), 2, -1).err(),
        Some(FontError::UnsupportedLocaFormat(-1))
    );
}

#[test]
fn name_records() {
    let bytes = be16(&[0, 2, 30, 1, 0, 0, 1, 5, 0, 3, 1, 0x409, 2, 10, 5]);
    let n = name::read(&mut FontReader::new(bytes.clone()), at(0, 30)).unwrap();
    assert_eq!((n.format, n.count, n.string_offset), (0, 2, 30));
    assert_eq!(n.name_records[1].name_id, 2);
    assert_eq!(n.name_records[1].offset, 5);
    assert_eq!(
        name::read(&mut FontReader::new(bytes[..28].to_vec()), at(0, 30)).err(),
        Some(FontError::UnexpectedEndOfFile)
    );
}

#[test]
fn reader_methods_match_table_readers() {
    let mut bytes = be32(&[0x0001_0000]);
    bytes.extend(be16(&[0, 0, 0, 0]));
    let mut r = FontReader::new(bytes);
    assert_eq!(r.read_offset_subtable().unwrap().numtables, 0);
    assert_eq!(r.read_offset_tables(0).unwrap().entries.len(), 0);
    assert!(r.read_maxp(at(0, 32)).is_err());
    assert!(r.read_head(at(0, 54)).is_err());
    assert!(r.read_cmap(at(0, 4)).is_err());
}

#[test]
fn cmap_readers_leave_cursor_after_subtable() {
    let bytes = be16(&[32, 0, 4, 4, 1, 0, 0x0041, 0xFFFF, 0, 0x0020, 0xFFFF, 3, 1, 0, 0, 0xAAAA]);
    let mut r = FontReader::new(bytes);
    read_cmap_format4(&mut r).unwrap();
    assert_eq!(r.pos, 30);
    let mut bytes = be16(&[0]);
    bytes.extend(be32(&[28, 0, 1, 0x20, 0x7E, 1, 9]));
    let mut r = FontReader::new(bytes);
    read_cmap_format120(&mut r).unwrap();
    assert_eq!(r.pos, 26);
    let mut bytes = be16(&[0]);
    bytes.extend(be32(&[8208, 0]));
    bytes.extend(vec![0u8; 8192]);
    bytes.extend(be32(&[0, 7]));
    let mut r = FontReader::new(bytes);
    read_cmap_format80(&mut r).unwrap();
    assert_eq!(r.pos, 8206);
    let mut r = FontReader::new(be16(&[6, 12, 0, 0x41, 1, 42, 0]));
    cmap_format_table(&mut r).unwrap();
    assert_eq!(r.pos, 12);
}

#[test]
fn table_readers_leave_cursor_after_table() {
    let mut r = FontReader::new(vec![0; 40]);
    maxp::read(&mut r, at(4, 32)).unwrap();
    assert_eq!(r.pos, 36);
    let mut bytes = be32(&[0x0001_0000]);
    bytes.extend(be16(&[0, 0, 0, 0, 0]));
    let mut r = FontReader::new(bytes);
    r.read_offset_subtable().unwrap();
    assert_eq!(r.pos, 12);
}
