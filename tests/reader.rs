use lipi::error::{FontError, GlyphFault};
use lipi::reader::{calendar_time, FontReader};
use lipi::tables::glyf::{read_flags, transform_point, Component, F2DOT14_ONE};
use lipi::tables::offset::table_cs;

fn reader(bytes: &[u8]) -> FontReader {
    FontReader::new(bytes.to_vec())
}

#[test]
fn primitive_widths() {
    let mut r = reader(&[0x01, 0x02, 0x03, 0x04]);
    assert_eq!(r.get_uint16(), Ok(0x0102));
    r.seek(0);
    assert_eq!(r.get_uint32(), Ok(0x01020304));
    let mut r = reader(&[0xFF, 0xFF]);
    assert_eq!(r.get_int16(), Ok(-1));
}

#[test]
fn uint8_reads_and_advances() {
    let mut r = reader(&[0xAB, 0xCD]);
    assert_eq!(r.get_uint8(), Ok(0xAB));
    assert_eq!(r.pos, 1);
    assert_eq!(r.get_uint8(), Ok(0xCD));
    assert_eq!(r.get_uint8(), Err(FontError::UnexpectedEndOfFile));
}

#[test]
fn int32_is_twos_complement() {
    let mut r = reader(&[0xFF, 0xFF, 0xFF, 0xFE]);
    assert_eq!(r.get_int32(), Ok(-2));
}

#[test]
fn short_buffer_is_end_of_file() {
    let mut r = reader(&[0x01, 0x02, 0x03]);
    assert_eq!(r.get_uint32(), Err(FontError::UnexpectedEndOfFile));
    let mut r = reader(&[0x01]);
    assert_eq!(r.get_uint16(), Err(FontError::UnexpectedEndOfFile));
}

#[test]
fn seek_returns_previous_position() {
    let mut r = reader(&[0, 1, 2, 3, 4]);
    r.seek(3);
    assert_eq!(r.seek(1), 3);
    assert_eq!(r.get_uint8(), Ok(1));
    assert_eq!(r.seek(5), 2);
    assert_eq!(r.seek_checked(6), Err(FontError::UnexpectedEndOfFile));
    assert_eq!(r.seek_checked(4), Ok(5));
}

#[test]
fn fixed_point_values() {
    let mut r = reader(&[0x00, 0x01, 0x00, 0x00]);
    let v = r.get_float32().unwrap();
    assert_eq!(v.raw as f64 / 65536.0, 1.0);
    let mut r = reader(&[0x40, 0x00, 0xC0, 0x00]);
    let a = r.get_f2dot14().unwrap();
    let b = r.get_f2dot14().unwrap();
    assert_eq!(a.raw as f64 / 16384.0, 1.0);
    assert_eq!(b.raw as f64 / 16384.0, -1.0);
}

#[test]
fn hfs_date_to_unix() {
    // 2010-01-01T00:00:00Z is 3_345_148_800 seconds after the HFS epoch.
    let mut r = reader(&[0, 0, 0, 0, 0xC7, 0x62, 0xEB, 0x80]);
    assert_eq!(r.get_date(), Ok(1_262_304_000));
    let mut r = reader(&[0, 0, 0, 0, 0xC7, 0xB5, 0x8B, 0x00]);
    assert_eq!(r.get_date(), Ok(1_267_718_784));
    let mut r = reader(&[0; 8]);
    assert_eq!(r.get_date(), Ok(-2_082_844_800));
}

#[test]
fn string_keeps_bytes() {
    let mut r = reader(&[b'g', b'l', b'y', b'f', 0xE9]);
    assert_eq!(r.get_string(4), Ok("glyf".to_string()));
    assert_eq!(r.get_string(1), Ok("\u{e9}".to_string()));
    assert_eq!(r.get_string(1), Err(FontError::UnexpectedEndOfFile));
}

#[test]
fn checksum_pads_last_word() {
    let mut r = reader(&[0, 0, 0, 1, 0, 0, 0, 2, 0, 0, 0]);
    assert_eq!(table_cs(&mut r, 0, 11), 3);
    assert_eq!(r.pos, 0);
    let mut r = reader(&[0x12, 0x34]);
    assert_eq!(table_cs(&mut r, 0, 2), 0x1234_0000);
}

#[test]
fn checksum_wraps() {
    let mut r = reader(&[0xFF, 0xFF, 0xFF, 0xFF, 0, 0, 0, 2]);
    assert_eq!(table_cs(&mut r, 0, 8), 1);
}

#[test]
fn flag_run_expands_repeats() {
    let mut r = reader(&[0x08, 0x02, 0x05]);
    assert_eq!(read_flags(&mut r, 0, 4), Ok(vec![0x08, 0x08, 0x08, 0x05]));
    assert_eq!(r.pos, 3);
}

#[test]
fn flag_run_refuses_zero_repeat() {
    let mut r = reader(&[0x08, 0x00, 0x05]);
    assert_eq!(
        read_flags(&mut r, 7, 4),
        Err(FontError::MalformedGlyph { index: 7, detail: GlyphFault::ZeroRepeat })
    );
}

#[test]
fn flag_run_refuses_overrun() {
    let mut r = reader(&[0x08, 0x05]);
    assert_eq!(
        read_flags(&mut r, 2, 3),
        Err(FontError::MalformedGlyph { index: 2, detail: GlyphFault::FlagOverrun })
    );
}

fn component(a: i16, b: i16, c: i16, d: i16, e: i32, f: i32) -> Component {
    Component { flags: 0, index: 0, a, b, c, d, e, f, destination_index: 0, source_index: 0 }
}

#[test]
fn compound_transform_scale_and_offset() {
    let c = component(0x2000, 0, 0, 0x2000, 10, -5);
    assert_eq!(transform_point(&c, 4, 8), (12, -1));
}

#[test]
fn compound_transform_uses_untransformed_x() {
    // x' = 0·x + 1·y, y' = 1·x + 0·y: a swap, which needs the untransformed x.
    let c = component(0, F2DOT14_ONE, F2DOT14_ONE, 0, 0, 0);
    assert_eq!(transform_point(&c, 3, 7), (7, 3));
}

#[test]
fn compound_transform_truncates_and_saturates() {
    let c = component(0x2000, 0, 0, 0x2000, 0, 0);
    assert_eq!(transform_point(&c, -3, 3), (-1, 1));
    let c = component(0x7FFF, 0x7FFF, 0, F2DOT14_ONE, 30000, 0);
    assert_eq!(transform_point(&c, 32767, 0), (32767, 0));
}

#[test]
fn calendar_time_of_unix_seconds() {
    let t = calendar_time(1_262_304_000).unwrap();
    assert_eq!((t.year, t.month, t.day, t.hour, t.minute, t.second), (2010, 1, 1, 0, 0, 0));
    let t = calendar_time(-2_082_844_800 + 86_399).unwrap();
    assert_eq!((t.year, t.month, t.day, t.hour, t.minute, t.second), (1904, 1, 1, 23, 59, 59));
    assert_eq!(calendar_time(i64::MAX), None);
}
