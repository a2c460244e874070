use vstd::prelude::*;
use crate::error::{FontError, GlyphFault};
use crate::reader::{FontReader, u8s_at, u16_at, u16s_at, u32_at, i16_at};
use crate::tables::offset::OffsetTable;
use vstd::arithmetic::div_mod::lemma_add_mod_noop_right;

verus! {

/// Simple-glyph flag: the point is on the curve.
pub const ON_CURVE: u8 = 0x01;
/// Simple-glyph flag: the x delta is one byte.
pub const X_IS_BYTE: u8 = 0x02;
/// Simple-glyph flag: the y delta is one byte.
pub const Y_IS_BYTE: u8 = 0x04;
/// Simple-glyph flag: a repeat count follows.
pub const REPEAT: u8 = 0x08;
/// Simple-glyph flag: with `X_IS_BYTE`, the delta is positive; without it, x repeats.
pub const X_DELTA: u8 = 0x10;
/// Simple-glyph flag: with `Y_IS_BYTE`, the delta is positive; without it, y repeats.
pub const Y_DELTA: u8 = 0x20;

/// Component flag: the two arguments are 16-bit words.
pub const ARG_1_AND_2_ARE_WORDS: u16 = 0x0001;
/// Component flag: the arguments are an x and y offset, not point indices.
pub const ARGS_ARE_XY_VALUES: u16 = 0x0002;
/// Component flag: round the offset to the grid.
pub const ROUND_XY_TO_GRID: u16 = 0x0004;
/// Component flag: one scale for both axes follows.
pub const WE_HAVE_A_SCALE: u16 = 0x0008;
/// Component flag: another component follows this one.
pub const MORE_COMPONENTS: u16 = 0x0020;
/// Component flag: separate x and y scales follow.
pub const WE_HAVE_AN_X_AND_Y_SCALE: u16 = 0x0040;
/// Component flag: a two by two matrix follows.
pub const WE_HAVE_A_TWO_BY_TWO: u16 = 0x0080;
/// Component flag: instructions follow the last component.
pub const WE_HAVE_INSTRUCTIONS: u16 = 0x0100;
/// Component flag: use this component's metrics for the compound.
pub const USE_MY_METRICS: u16 = 0x0200;
/// Component flag: the components overlap.
pub const OVERLAP_COMPONENT: u16 = 0x0400;

/// `1.0` in 2.14 fixed point.
pub const F2DOT14_ONE: i16 = 0x4000;

/// The outline of a glyph: contour end points, instructions, and per-point
/// flags with x and y deltas (for a simple glyph) or transformed coordinates
/// (for a compound one).
#[derive(Clone, Debug)]
pub struct GlyphData {
    pub end_pts_of_contours: Vec<u16>,
    pub instruction_length: Option<u16>,
    pub instructions: Option<Vec<u8>>,
    pub flags: Vec<u8>,
    pub x_coordinates: Vec<i16>,
    pub y_coordinates: Vec<i16>,
}

/// A decoded glyph: its header and its outline.
#[derive(Clone, Debug)]
pub struct Glyph {
    pub number_of_contours: i16,
    pub xmin: i16,
    pub ymin: i16,
    pub xmax: i16,
    pub ymax: i16,
    pub glyph_data: GlyphData,
}

/// One component of a compound glyph. The transform is `x' = a·x + b·y + e`,
/// `y' = c·x + d·y + f`, with `a`, `b`, `c`, `d` in 2.14 fixed point.
#[derive(Clone, Copy, Debug, PartialEq, Eq, Structural)]
pub struct Component {
    pub flags: u16,
    pub index: u16,
    pub a: i16,
    pub b: i16,
    pub c: i16,
    pub d: i16,
    pub e: i32,
    pub f: i32,
    pub destination_index: i32,
    pub source_index: i32,
}

/// Where `loca` and `glyf` lie, and the width of `loca` entries.
#[derive(Clone, Copy, Debug, PartialEq, Eq, Structural)]
pub struct GlyphSource {
    pub loca: OffsetTable,
    pub glyf: OffsetTable,
    pub index_to_loc_format: i16,
}

/// The mathematical content of a `GlyphData`.
pub struct OutlineModel {
    pub end_pts: Seq<u16>,
    pub instruction_length: Option<u16>,
    pub instructions: Option<Seq<u8>>,
    pub flags: Seq<u8>,
    pub xs: Seq<i16>,
    pub ys: Seq<i16>,
}

/// The mathematical content of a `Glyph`.
pub struct GlyphModel {
    pub number_of_contours: i16,
    pub xmin: i16,
    pub ymin: i16,
    pub xmax: i16,
    pub ymax: i16,
    pub data: OutlineModel,
}

impl GlyphData {
    pub open spec fn model(&self) -> OutlineModel {
        OutlineModel {
            end_pts: self.end_pts_of_contours@,
            instruction_length: self.instruction_length,
            instructions: match self.instructions {
                Some(v) => Some(v@),
                None => None,
            },
            flags: self.flags@,
            xs: self.x_coordinates@,
            ys: self.y_coordinates@,
        }
    }
}

impl Glyph {
    pub open spec fn model(&self) -> GlyphModel {
        GlyphModel {
            number_of_contours: self.number_of_contours,
            xmin: self.xmin,
            ymin: self.ymin,
            xmax: self.xmax,
            ymax: self.ymax,
            data: self.glyph_data.model(),
        }
    }
}

/// Whether the per-point sequences of an outline have one entry per point.
pub open spec fn points_agree(m: OutlineModel) -> bool {
    m.flags.len() == m.xs.len() && m.ys.len() == m.xs.len()
}

/// The malformed-glyph error for glyph `index`.
pub open spec fn malformed(index: u32, detail: GlyphFault) -> FontError {
    FontError::MalformedGlyph { index, detail }
}

// ----- locating a glyph -----

/// Where glyph `index` starts in the file, from its `loca` entry and the next.
pub open spec fn located(src: GlyphSource, off: int, next: int) -> Result<Option<int>, FontError> {
    if off == next || off >= src.glyf.length {
        Ok(None)
    } else {
        Ok(Some(src.glyf.offset + off))
    }
}

/// Where glyph `index` starts in the file: `None` for an empty glyph or one
/// whose offset lies past the end of `glyf`.
pub open spec fn glyph_location(s: Seq<u8>, src: GlyphSource, index: u32) -> Result<Option<int>, FontError> {
    if src.index_to_loc_format == 0 {
        let p = src.loca.offset + 2 * index;
        if p + 4 > s.len() {
            Err(FontError::UnexpectedEndOfFile)
        } else {
            located(src, 2 * u16_at(s, p), 2 * u16_at(s, p + 2))
        }
    } else if src.index_to_loc_format == 1 {
        let p = src.loca.offset + 4 * index;
        if p + 8 > s.len() {
            Err(FontError::UnexpectedEndOfFile)
        } else {
            located(src, u32_at(s, p) as int, u32_at(s, p + 4) as int)
        }
    } else {
        Err(FontError::UnsupportedLocaFormat(src.index_to_loc_format))
    }
}

/// Finds where glyph `index` starts in the file.
pub fn glyph_offset(r: &mut FontReader, src: &GlyphSource, index: u32) -> (res: Result<Option<u64>, FontError>)
    ensures
        final(r).data@ == old(r).data@,
        final(r).pos == old(r).pos,
        match res {
            Ok(Some(o)) => glyph_location(old(r).data@, *src, index)
                == Ok::<Option<int>, FontError>(Some(o as int)),
            Ok(None) => glyph_location(old(r).data@, *src, index)
                == Ok::<Option<int>, FontError>(None),
            Err(e) => glyph_location(old(r).data@, *src, index) == Err::<Option<int>, FontError>(e),
        },
{
    let len = r.data.len() as u64;
    let (off, next): (u64, u64) = if src.index_to_loc_format == 0 {
        let p: u64 = src.loca.offset as u64 + 2 * index as u64;
        if p + 4 > len {
            return Err(FontError::UnexpectedEndOfFile);
        }
        let old = r.seek(p as usize);
        let off = r.get_uint16()?;
        let next = r.get_uint16()?;
        r.pos = old;
        (2 * off as u64, 2 * next as u64)
    } else if src.index_to_loc_format == 1 {
        let p: u64 = src.loca.offset as u64 + 4 * index as u64;
        if p + 8 > len {
            return Err(FontError::UnexpectedEndOfFile);
        }
        let old = r.seek(p as usize);
        let off = r.get_uint32()?;
        let next = r.get_uint32()?;
        r.pos = old;
        (off as u64, next as u64)
    } else {
        return Err(FontError::UnsupportedLocaFormat(src.index_to_loc_format));
    };
    if off == next || off >= src.glyf.length as u64 {
        Ok(None)
    } else {
        Ok(Some(src.glyf.offset as u64 + off))
    }
}

// ----- simple glyphs -----

/// Expands the run-length encoded flags at `p` until `total` flags are known,
/// `acc` holding those already expanded. Gives the flags and the position after them.
pub open spec fn flag_run(s: Seq<u8>, index: u32, p: int, total: nat, acc: Seq<u8>) -> Result<(Seq<u8>, int), FontError>
    decreases total - acc.len(),
{
    if acc.len() >= total {
        Ok((acc, p))
    } else if p + 1 > s.len() {
        Err(FontError::UnexpectedEndOfFile)
    } else {
        let f = s[p];
        if f & REPEAT != 0 {
            if p + 2 > s.len() {
                Err(FontError::UnexpectedEndOfFile)
            } else if s[p + 1] == 0 {
                Err(malformed(index, GlyphFault::ZeroRepeat))
            } else if acc.len() + 1 + s[p + 1] > total {
                Err(malformed(index, GlyphFault::FlagOverrun))
            } else {
                flag_run(s, index, p + 2, total, acc + Seq::new((s[p + 1] + 1) as nat, |i: int| f))
            }
        } else {
            flag_run(s, index, p + 1, total, acc.push(f))
        }
    }
}

/// Decodes the deltas of one axis at `p`, one per flag, `acc` holding those already
/// decoded; `byte_bit` and `same_bit` are that axis's flag bits. `None` when the
/// buffer ends first.
pub open spec fn coord_run(s: Seq<u8>, p: int, flags: Seq<u8>, byte_bit: u8, same_bit: u8, acc: Seq<i16>) -> Option<(Seq<i16>, int)>
    decreases flags.len() - acc.len(),
{
    if acc.len() >= flags.len() {
        Some((acc, p))
    } else {
        let f = flags[acc.len() as int];
        if f & byte_bit != 0 {
            if p + 1 > s.len() {
                None
            } else {
                let delta: i16 = if f & same_bit != 0 { s[p] as i16 } else { (-(s[p] as int)) as i16 };
                coord_run(s, p + 1, flags, byte_bit, same_bit, acc.push(delta))
            }
        } else if f & same_bit == 0 {
            if p + 2 > s.len() {
                None
            } else {
                coord_run(s, p + 2, flags, byte_bit, same_bit, acc.push(i16_at(s, p)))
            }
        } else {
            coord_run(s, p, flags, byte_bit, same_bit, acc.push(0))
        }
    }
}

/// What decoding the body of simple glyph `index` at `p` gives, for `n` contours.
pub open spec fn simple_spec(s: Seq<u8>, index: u32, p: int, n: int) -> Result<Option<OutlineModel>, FontError> {
    let q = p + 2 * n;
    if q + 2 > s.len() {
        Err(FontError::UnexpectedEndOfFile)
    } else if q + 2 + u16_at(s, q) > s.len() {
        Err(FontError::UnexpectedEndOfFile)
    } else if n == 0 {
        Ok(None)
    } else {
        let end_pts = u16s_at(s, p, n as nat);
        let ilen = u16_at(s, q);
        let total = (end_pts.last() + 1) as nat;
        match flag_run(s, index, q + 2 + ilen, total, Seq::empty()) {
            Err(e) => Err(e),
            Ok((flags, px)) => match coord_run(s, px, flags, X_IS_BYTE, X_DELTA, Seq::empty()) {
                None => Err(FontError::UnexpectedEndOfFile),
                Some((xs, py)) => match coord_run(s, py, flags, Y_IS_BYTE, Y_DELTA, Seq::empty()) {
                    None => Err(FontError::UnexpectedEndOfFile),
                    Some((ys, _)) => Ok(Some(OutlineModel {
                        end_pts,
                        instruction_length: Some(ilen),
                        instructions: Some(u8s_at(s, q + 2, ilen as nat)),
                        flags,
                        xs,
                        ys,
                    })),
                },
            },
        }
    }
}

/// Whether bit `mask` is set in `v`.
fn bit_set(v: u8, mask: u8) -> (b: bool)
    ensures
        b == (v & mask != 0),
{
    v & mask != 0
}

/// Expands the flag stream at the cursor to `total` flags.
pub fn read_flags(r: &mut FontReader, index: u32, total: u32) -> (res: Result<Vec<u8>, FontError>)
    requires
        total <= 0x10000,
    ensures
        final(r).data@ == old(r).data@,
        match res {
            Ok(v) => flag_run(old(r).data@, index, old(r).pos as int, total as nat, Seq::empty())
                == Ok::<(Seq<u8>, int), FontError>((v@, final(r).pos as int))
                && v@.len() == total,
            Err(e) => flag_run(old(r).data@, index, old(r).pos as int, total as nat, Seq::empty())
                == Err::<(Seq<u8>, int), FontError>(e),
        },
{
    let ghost s = r.data@;
    let ghost p0 = r.pos as int;
    let mut flags: Vec<u8> = Vec::new();
    while flags.len() < total as usize
        invariant
            s == old(r).data@,
            p0 == old(r).pos,
            r.data@ == s,
            total <= 0x10000,
            flags@.len() <= total,
            flag_run(s, index, p0, total as nat, Seq::empty())
                == flag_run(s, index, r.pos as int, total as nat, flags@),
        decreases total - flags@.len(),
    {
        let ghost before = flags@;
        let ghost pos = r.pos as int;
        let flag = r.get_uint8()?;
        if bit_set(flag, REPEAT) {
            let count = r.get_uint8()?;
            if count == 0 {
                return Err(FontError::MalformedGlyph { index, detail: GlyphFault::ZeroRepeat });
            }
            if flags.len() + 1 + count as usize > total as usize {
                return Err(FontError::MalformedGlyph { index, detail: GlyphFault::FlagOverrun });
            }
            let mut j: u16 = 0;
            while j <= count as u16
                invariant
                    j <= count + 1,
                    flags@ == before + Seq::new(j as nat, |i: int| flag),
                    before.len() + 1 + count <= total,
                    total <= 0x10000,
                decreases count + 1 - j,
            {
                flags.push(flag);
                assert(flags@ =~= before + Seq::new((j + 1) as nat, |i: int| flag));
                j = j + 1;
            }
            assert(flags@ =~= before + Seq::new((s[pos + 1] + 1) as nat, |i: int| flag));
        } else {
            flags.push(flag);
        }
    }
    Ok(flags)
}

/// Decodes one axis of deltas at the cursor, one per flag.
pub fn read_coordinates(r: &mut FontReader, flags: &Vec<u8>, byte_bit: u8, same_bit: u8) -> (res: Result<Vec<i16>, FontError>)
    ensures
        final(r).data@ == old(r).data@,
        match res {
            Ok(v) => coord_run(old(r).data@, old(r).pos as int, flags@, byte_bit, same_bit, Seq::empty())
                == Some((v@, final(r).pos as int)) && v@.len() == flags@.len(),
            Err(e) => coord_run(old(r).data@, old(r).pos as int, flags@, byte_bit, same_bit, Seq::empty())
                is None && e == FontError::UnexpectedEndOfFile,
        },
{
    let ghost s = r.data@;
    let ghost p0 = r.pos as int;
    let mut values: Vec<i16> = Vec::new();
    while values.len() < flags.len()
        invariant
            s == old(r).data@,
            p0 == old(r).pos,
            r.data@ == s,
            values@.len() <= flags@.len(),
            coord_run(s, p0, flags@, byte_bit, same_bit, Seq::empty())
                == coord_run(s, r.pos as int, flags@, byte_bit, same_bit, values@),
        decreases flags@.len() - values@.len(),
    {
        let flag = flags[values.len()];
        let value: i16 = if bit_set(flag, byte_bit) {
            let b = r.get_uint8()?;
            if bit_set(flag, same_bit) {
                b as i16
            } else {
                -(b as i16)
            }
        } else if !bit_set(flag, same_bit) {
            r.get_int16()?
        } else {
            0
        };
        values.push(value);
    }
    Ok(values)
}

/// Decodes the body of simple glyph `index`, which has `number_of_contours`
/// contours, at the cursor; `None` for a glyph without contours.
pub fn simple_glyph(r: &mut FontReader, index: u32, number_of_contours: i16) -> (res: Result<Option<GlyphData>, FontError>)
    requires
        number_of_contours >= 0,
    ensures
        final(r).data@ == old(r).data@,
        match res {
            Ok(Some(g)) => simple_spec(old(r).data@, index, old(r).pos as int, number_of_contours as int)
                == Ok::<Option<OutlineModel>, FontError>(Some(g.model()))
                && points_agree(g.model())
                && g.end_pts_of_contours@.len() > 0
                && g.flags@.len() == g.end_pts_of_contours@.last() + 1,
            Ok(None) => simple_spec(old(r).data@, index, old(r).pos as int, number_of_contours as int)
                == Ok::<Option<OutlineModel>, FontError>(None),
            Err(e) => simple_spec(old(r).data@, index, old(r).pos as int, number_of_contours as int)
                == Err::<Option<OutlineModel>, FontError>(e),
        },
{
    let ghost s = r.data@;
    let ghost p = r.pos as int;
    let ghost q = p + 2 * number_of_contours;
    let end_pts_of_contours = r.get_uint16_array(number_of_contours as u32)?;
    let instruction_length = r.get_uint16()?;
    let instructions = r.get_uint8_array(instruction_length as u32)?;
    if number_of_contours == 0 {
        return Ok(None);
    }
    let last = end_pts_of_contours[end_pts_of_contours.len() - 1];
    let total: u32 = last as u32 + 1;
    let flags = read_flags(r, index, total)?;
    let x_coordinates = match read_coordinates(r, &flags, X_IS_BYTE, X_DELTA) {
        Ok(v) => v,
        Err(e) => { return Err(e); },
    };
    let y_coordinates = match read_coordinates(r, &flags, Y_IS_BYTE, Y_DELTA) {
        Ok(v) => v,
        Err(e) => { return Err(e); },
    };
    Ok(Some(GlyphData {
        end_pts_of_contours,
        instruction_length: Some(instruction_length),
        instructions: Some(instructions),
        flags,
        x_coordinates,
        y_coordinates,
    }))
}

// ----- compound glyphs -----

/// Whether bit `mask` is set in `v`.
fn bit_set16(v: u16, mask: u16) -> (b: bool)
    ensures
        b == (v & mask != 0),
{
    v & mask != 0
}

/// Bytes taken by the two arguments of a component.
pub open spec fn args_size(flags: u16) -> int {
    if flags & ARG_1_AND_2_ARE_WORDS != 0 { 4 } else { 2 }
}

/// Bytes taken by the linear part of a component's transform.
pub open spec fn scale_size(flags: u16) -> int {
    if flags & WE_HAVE_A_SCALE != 0 {
        2
    } else if flags & WE_HAVE_AN_X_AND_Y_SCALE != 0 {
        4
    } else if flags & WE_HAVE_A_TWO_BY_TWO != 0 {
        8
    } else {
        0
    }
}

/// Bytes taken by a component record with these flags.
pub open spec fn component_size(flags: u16) -> int {
    4 + args_size(flags) + scale_size(flags)
}

/// Argument `k` (0 or 1) of the component at `p`.
pub open spec fn component_arg(s: Seq<u8>, p: int, flags: u16, k: int) -> i32 {
    if flags & ARG_1_AND_2_ARE_WORDS != 0 {
        i16_at(s, p + 4 + 2 * k) as i32
    } else {
        s[p + 4 + k] as i32
    }
}

/// The component record at `p`.
pub open spec fn component_at(s: Seq<u8>, p: int) -> Component {
    let flags = u16_at(s, p);
    let m = p + 4 + args_size(flags);
    let xy = flags & ARGS_ARE_XY_VALUES != 0;
    let one_scale = flags & WE_HAVE_A_SCALE != 0;
    let two_scales = !one_scale && flags & WE_HAVE_AN_X_AND_Y_SCALE != 0;
    let matrix = !one_scale && !two_scales && flags & WE_HAVE_A_TWO_BY_TWO != 0;
    Component {
        flags,
        index: u16_at(s, p + 2),
        a: if one_scale || two_scales || matrix { i16_at(s, m) } else { F2DOT14_ONE },
        b: if matrix { i16_at(s, m + 2) } else { 0 },
        c: if matrix { i16_at(s, m + 4) } else { 0 },
        d: if one_scale {
            i16_at(s, m)
        } else if two_scales {
            i16_at(s, m + 2)
        } else if matrix {
            i16_at(s, m + 6)
        } else {
            F2DOT14_ONE
        },
        e: if xy { component_arg(s, p, flags, 0) } else { 0 },
        f: if xy { component_arg(s, p, flags, 1) } else { 0 },
        destination_index: if xy { 0 } else { component_arg(s, p, flags, 0) },
        source_index: if xy { 0 } else { component_arg(s, p, flags, 1) },
    }
}

/// `n / d` rounded toward zero.
pub open spec fn trunc_div(n: int, d: int) -> int {
    if n >= 0 { n / d } else { -((-n) / d) }
}

/// `v` clamped to the range of `i16`.
pub open spec fn saturate_i16(v: int) -> i16 {
    if v < i16::MIN { i16::MIN } else if v > i16::MAX { i16::MAX } else { v as i16 }
}

/// `x' = a·x + b·y + e`, truncated toward zero and clamped to `i16`.
pub open spec fn transform_x(c: Component, x: i16, y: i16) -> i16 {
    saturate_i16(trunc_div(c.a * x + c.b * y + c.e * 16384, 16384))
}

/// `y' = c·x + d·y + f`, truncated toward zero and clamped to `i16`.
pub open spec fn transform_y(c: Component, x: i16, y: i16) -> i16 {
    saturate_i16(trunc_div(c.c * x + c.d * y + c.f * 16384, 16384))
}

/// Contour end points of a referenced glyph, moved past the `offset` points
/// already gathered (wrapping at 16 bits).
pub open spec fn shift_end_pts(end_pts: Seq<u16>, offset: nat) -> Seq<u16> {
    Seq::new(end_pts.len(), |i: int| ((end_pts[i] + offset) % 0x10000) as u16)
}

/// `acc` with the points of `g`, placed by component `c`, appended.
pub open spec fn append_outline(acc: OutlineModel, c: Component, g: OutlineModel) -> OutlineModel {
    OutlineModel {
        end_pts: acc.end_pts + shift_end_pts(g.end_pts, acc.xs.len()),
        instruction_length: acc.instruction_length,
        instructions: acc.instructions,
        flags: acc.flags + g.flags,
        xs: acc.xs + Seq::new(g.xs.len(), |i: int| transform_x(c, g.xs[i], g.ys[i])),
        ys: acc.ys + Seq::new(g.xs.len(), |i: int| transform_y(c, g.xs[i], g.ys[i])),
    }
}

/// An outline with no points and no instructions.
pub open spec fn empty_outline() -> OutlineModel {
    OutlineModel {
        end_pts: Seq::empty(),
        instruction_length: None,
        instructions: None,
        flags: Seq::empty(),
        xs: Seq::empty(),
        ys: Seq::empty(),
    }
}

/// How the failure `e` of the glyph `index` that a component references is
/// reported: a malformed glyph stays as it is, any other failure becomes a
/// malformed glyph with a bad component.
pub open spec fn component_failure(index: u32, e: FontError) -> FontError {
    match e {
        FontError::MalformedGlyph { .. } => e,
        _ => malformed(index, GlyphFault::BadComponent),
    }
}

/// What decoding glyph `index` gives when compound glyphs may still nest
/// `depth` levels: `Ok(None)` for an empty glyph.
pub open spec fn glyph_spec(s: Seq<u8>, src: GlyphSource, index: u32, depth: nat) -> Result<Option<GlyphModel>, FontError>
    decreases depth, 0nat, 0nat,
{
    match glyph_location(s, src, index) {
        Err(e) => Err(e),
        Ok(None) => Ok(None),
        Ok(Some(p)) => if p + 10 > s.len() {
            Err(FontError::UnexpectedEndOfFile)
        } else {
            let noc = i16_at(s, p);
            let data = if noc < -1 {
                Err(malformed(index, GlyphFault::BadContourCount))
            } else if noc == -1 {
                if depth == 0 {
                    Err(malformed(index, GlyphFault::TooDeep))
                } else {
                    match components_spec(s, src, p + 10, (depth - 1) as nat, empty_outline()) {
                        Err(e) => Err(e),
                        Ok(m) => Ok(Some(m)),
                    }
                }
            } else {
                simple_spec(s, index, p + 10, noc as int)
            };
            match data {
                Err(e) => Err(e),
                Ok(None) => Ok(None),
                Ok(Some(m)) => Ok(Some(GlyphModel {
                    number_of_contours: noc,
                    xmin: i16_at(s, p + 2),
                    ymin: i16_at(s, p + 4),
                    xmax: i16_at(s, p + 6),
                    ymax: i16_at(s, p + 8),
                    data: m,
                })),
            }
        },
    }
}

/// What decoding the components at `p` gives, `acc` holding the points of the
/// components before; referenced glyphs may nest `depth` more levels.
pub open spec fn components_spec(s: Seq<u8>, src: GlyphSource, p: int, depth: nat, acc: OutlineModel) -> Result<OutlineModel, FontError>
    decreases depth, 1nat, (s.len() - p) as nat,
{
    let c = component_at(s, p);
    let end = p + component_size(c.flags);
    if p < 0 || end > s.len() {
        Err(FontError::UnexpectedEndOfFile)
    } else {
        match glyph_spec(s, src, c.index as u32, depth) {
            Err(e) => Err(component_failure(c.index as u32, e)),
            Ok(g) => {
                let next = match g {
                    None => acc,
                    Some(g) => append_outline(acc, c, g.data),
                };
                if c.flags & MORE_COMPONENTS != 0 {
                    components_spec(s, src, end, depth, next)
                } else if c.flags & WE_HAVE_INSTRUCTIONS != 0 {
                    if end + 2 > s.len() || end + 2 + u16_at(s, end) > s.len() {
                        Err(FontError::UnexpectedEndOfFile)
                    } else {
                        Ok(OutlineModel {
                            end_pts: next.end_pts,
                            instruction_length: Some(u16_at(s, end)),
                            instructions: Some(u8s_at(s, end + 2, u16_at(s, end) as nat)),
                            flags: next.flags,
                            xs: next.xs,
                            ys: next.ys,
                        })
                    }
                } else {
                    Ok(next)
                }
            },
        }
    }
}

/// Reads one component record at the cursor.
pub fn read_component(r: &mut FontReader) -> (res: Result<Component, FontError>)
    ensures
        final(r).data@ == old(r).data@,
        match res {
            Ok(c) => c == component_at(old(r).data@, old(r).pos as int)
                && old(r).pos + component_size(c.flags) <= old(r).data@.len()
                && final(r).pos == old(r).pos + component_size(c.flags),
            Err(e) => old(r).pos + component_size(u16_at(old(r).data@, old(r).pos as int))
                > old(r).data@.len() && e == FontError::UnexpectedEndOfFile,
        },
{
    let flags = r.get_uint16()?;
    let index = r.get_uint16()?;
    let (arg1, arg2): (i32, i32) = if bit_set16(flags, ARG_1_AND_2_ARE_WORDS) {
        let a1 = r.get_int16()?;
        let a2 = r.get_int16()?;
        (a1 as i32, a2 as i32)
    } else {
        let a1 = r.get_uint8()?;
        let a2 = r.get_uint8()?;
        (a1 as i32, a2 as i32)
    };
    let mut c = Component {
        flags,
        index,
        a: F2DOT14_ONE,
        b: 0,
        c: 0,
        d: F2DOT14_ONE,
        e: 0,
        f: 0,
        destination_index: 0,
        source_index: 0,
    };
    if bit_set16(flags, ARGS_ARE_XY_VALUES) {
        c.e = arg1;
        c.f = arg2;
    } else {
        c.destination_index = arg1;
        c.source_index = arg2;
    }
    if bit_set16(flags, WE_HAVE_A_SCALE) {
        let scale = r.get_f2dot14()?;
        c.a = scale.raw;
        c.d = scale.raw;
    } else if bit_set16(flags, WE_HAVE_AN_X_AND_Y_SCALE) {
        c.a = r.get_f2dot14()?.raw;
        c.d = r.get_f2dot14()?.raw;
    } else if bit_set16(flags, WE_HAVE_A_TWO_BY_TWO) {
        c.a = r.get_f2dot14()?.raw;
        c.b = r.get_f2dot14()?.raw;
        c.c = r.get_f2dot14()?.raw;
        c.d = r.get_f2dot14()?.raw;
    }
    Ok(c)
}

/// One axis of a component transform: `m1·x + m2·y + t`, with `m1` and `m2`
/// in 2.14 fixed point, truncated toward zero and clamped to `i16`.
fn transform_axis(m1: i16, m2: i16, t: i32, x: i16, y: i16) -> (v: i16)
    ensures
        v == saturate_i16(trunc_div(m1 * x + m2 * y + t * 16384, 16384)),
{
    assert(-0x4000_0000 <= m1 as int * x as int <= 0x4000_0000) by (nonlinear_arith)
        requires -0x8000 <= m1 <= 0x7fff, -0x8000 <= x <= 0x7fff;
    assert(-0x4000_0000 <= m2 as int * y as int <= 0x4000_0000) by (nonlinear_arith)
        requires -0x8000 <= m2 <= 0x7fff, -0x8000 <= y <= 0x7fff;
    let n: i64 = m1 as i64 * x as i64 + m2 as i64 * y as i64 + t as i64 * 16384;
    let q: i64 = if n >= 0 { n / 16384 } else { -((-n) / 16384) };
    if q < i16::MIN as i64 {
        i16::MIN
    } else if q > i16::MAX as i64 {
        i16::MAX
    } else {
        q as i16
    }
}

/// Where component `c` places the point `(x, y)` of the glyph it references.
pub fn transform_point(c: &Component, x: i16, y: i16) -> (r: (i16, i16))
    ensures
        r.0 == transform_x(*c, x, y),
        r.1 == transform_y(*c, x, y),
{
    (transform_axis(c.a, c.b, c.e, x, y), transform_axis(c.c, c.d, c.f, x, y))
}

/// Appends the points of `g`, placed by component `c`, to `acc`.
fn append_component(acc: &mut GlyphData, c: &Component, g: &GlyphData)
    requires
        points_agree(old(acc).model()),
        points_agree(g.model()),
    ensures
        final(acc).model() == append_outline(old(acc).model(), *c, g.model()),
        points_agree(final(acc).model()),
{
    let ghost a0 = acc.model();
    let ghost gm = g.model();
    let offset: u16 = (acc.x_coordinates.len() % 0x10000) as u16;
    let mut i: usize = 0;
    while i < g.end_pts_of_contours.len()
        invariant
            i <= gm.end_pts.len(),
            gm == g.model(),
            offset == a0.xs.len() % 0x10000,
            acc.model() == (OutlineModel {
                end_pts: a0.end_pts + shift_end_pts(gm.end_pts, a0.xs.len()).take(i as int),
                ..a0
            }),
        decreases gm.end_pts.len() - i,
    {
        let e = g.end_pts_of_contours[i];
        let shifted: u16 = ((e as u32 + offset as u32) % 0x10000) as u16;
        proof {
            lemma_add_mod_noop_right(e as int, a0.xs.len() as int, 0x10000);
        }
        acc.end_pts_of_contours.push(shifted);
        assert(acc.end_pts_of_contours@ =~= a0.end_pts
            + shift_end_pts(gm.end_pts, a0.xs.len()).take(i + 1));
        i = i + 1;
    }
    assert(shift_end_pts(gm.end_pts, a0.xs.len()).take(i as int)
        =~= shift_end_pts(gm.end_pts, a0.xs.len()));
    let ghost a1 = acc.model();
    let mut j: usize = 0;
    while j < g.x_coordinates.len()
        invariant
            j <= gm.xs.len(),
            gm == g.model(),
            points_agree(gm),
            points_agree(a0),
            a1.end_pts == append_outline(a0, *c, gm).end_pts,
            acc.model() == (OutlineModel {
                flags: a0.flags + gm.flags.take(j as int),
                xs: a0.xs + Seq::new(gm.xs.len(), |k: int| transform_x(*c, gm.xs[k], gm.ys[k])).take(j as int),
                ys: a0.ys + Seq::new(gm.xs.len(), |k: int| transform_y(*c, gm.xs[k], gm.ys[k])).take(j as int),
                ..a1
            }),
        decreases gm.xs.len() - j,
    {
        let (x, y) = transform_point(c, g.x_coordinates[j], g.y_coordinates[j]);
        acc.x_coordinates.push(x);
        acc.y_coordinates.push(y);
        acc.flags.push(g.flags[j]);
        assert(acc.flags@ =~= a0.flags + gm.flags.take(j + 1));
        assert(acc.x_coordinates@ =~= a0.xs
            + Seq::new(gm.xs.len(), |k: int| transform_x(*c, gm.xs[k], gm.ys[k])).take(j + 1));
        assert(acc.y_coordinates@ =~= a0.ys
            + Seq::new(gm.xs.len(), |k: int| transform_y(*c, gm.xs[k], gm.ys[k])).take(j + 1));
        j = j + 1;
    }
    assert(gm.flags.take(j as int) =~= gm.flags);
    assert(Seq::new(gm.xs.len(), |k: int| transform_x(*c, gm.xs[k], gm.ys[k])).take(j as int)
        =~= Seq::new(gm.xs.len(), |k: int| transform_x(*c, gm.xs[k], gm.ys[k])));
    assert(Seq::new(gm.xs.len(), |k: int| transform_y(*c, gm.xs[k], gm.ys[k])).take(j as int)
        =~= Seq::new(gm.xs.len(), |k: int| transform_y(*c, gm.xs[k], gm.ys[k])));
}

/// What is known of every glyph that decodes: one flag and one coordinate
/// pair per point, a contour count of at least -1, and for a simple glyph as
/// many points as its last contour end point says.
pub open spec fn glyph_facts(g: GlyphModel) -> bool {
    &&& points_agree(g.data)
    &&& g.number_of_contours >= -1
    &&& g.number_of_contours >= 0 ==> g.data.end_pts.len() > 0
        && g.data.flags.len() == g.data.end_pts.last() + 1
}

/// Decodes the components of a compound glyph at the cursor, then its
/// instructions if the last component announces them. Referenced glyphs may
/// nest `depth` more levels.
pub fn compound_glyph(r: &mut FontReader, src: &GlyphSource, depth: u16) -> (res: Result<GlyphData, FontError>)
    ensures
        final(r).data@ == old(r).data@,
        match res {
            Ok(g) => components_spec(old(r).data@, *src, old(r).pos as int, depth as nat, empty_outline())
                == Ok::<OutlineModel, FontError>(g.model()) && points_agree(g.model()),
            Err(e) => components_spec(old(r).data@, *src, old(r).pos as int, depth as nat, empty_outline())
                == Err::<OutlineModel, FontError>(e),
        },
    decreases depth, 1nat,
{
    let ghost s = r.data@;
    let ghost p0 = r.pos as int;
    let mut acc = GlyphData {
        end_pts_of_contours: Vec::new(),
        instruction_length: None,
        instructions: None,
        flags: Vec::new(),
        x_coordinates: Vec::new(),
        y_coordinates: Vec::new(),
    };
    assert(acc.model() =~= empty_outline());
    loop
        invariant
            s == old(r).data@,
            p0 == old(r).pos,
            r.data@ == s,
            0 <= r.pos <= s.len() || r.pos == p0,
            acc.instruction_length is None,
            acc.instructions is None,
            points_agree(acc.model()),
            components_spec(s, *src, p0, depth as nat, empty_outline())
                == components_spec(s, *src, r.pos as int, depth as nat, acc.model()),
        decreases s.len() - r.pos,
    {
        let c = read_component(r)?;
        let saved = r.pos;
        let g = match read_glyph(r, src, c.index as u32, depth) {
            Ok(g) => g,
            Err(FontError::MalformedGlyph { index, detail }) => {
                return Err(FontError::MalformedGlyph { index, detail });
            },
            Err(_) => {
                return Err(FontError::MalformedGlyph { index: c.index as u32, detail: GlyphFault::BadComponent });
            },
        };
        r.pos = saved;
        match g {
            Some(g) => append_component(&mut acc, &c, &g.glyph_data),
            None => {},
        }
        if !bit_set16(c.flags, MORE_COMPONENTS) {
            if bit_set16(c.flags, WE_HAVE_INSTRUCTIONS) {
                let instruction_length = r.get_uint16()?;
                let instructions = r.get_uint8_array(instruction_length as u32)?;
                acc.instruction_length = Some(instruction_length);
                acc.instructions = Some(instructions);
            }
            return Ok(acc);
        }
    }
}

/// Decodes glyph `index`, compound glyphs nesting at most `depth` levels.
/// `Ok(None)` is an empty glyph.
pub fn read_glyph(r: &mut FontReader, src: &GlyphSource, index: u32, depth: u16) -> (res: Result<Option<Glyph>, FontError>)
    ensures
        final(r).data@ == old(r).data@,
        match res {
            Ok(Some(g)) => glyph_spec(old(r).data@, *src, index, depth as nat)
                == Ok::<Option<GlyphModel>, FontError>(Some(g.model())) && glyph_facts(g.model()),
            Ok(None) => glyph_spec(old(r).data@, *src, index, depth as nat)
                == Ok::<Option<GlyphModel>, FontError>(None),
            Err(e) => glyph_spec(old(r).data@, *src, index, depth as nat)
                == Err::<Option<GlyphModel>, FontError>(e),
        },
    decreases depth, 0nat,
{
    let offset = match glyph_offset(r, src, index)? {
        Some(o) => o,
        None => { return Ok(None); },
    };
    if offset + 10 > r.data.len() as u64 {
        return Err(FontError::UnexpectedEndOfFile);
    }
    r.seek(offset as usize);
    let number_of_contours = r.get_int16()?;
    let xmin = r.get_int16()?;
    let ymin = r.get_int16()?;
    let xmax = r.get_int16()?;
    let ymax = r.get_int16()?;
    if number_of_contours < -1 {
        return Err(FontError::MalformedGlyph { index, detail: GlyphFault::BadContourCount });
    }
    let glyph_data = if number_of_contours == -1 {
        if depth == 0 {
            return Err(FontError::MalformedGlyph { index, detail: GlyphFault::TooDeep });
        }
        compound_glyph(r, src, depth - 1)?
    } else {
        match simple_glyph(r, index, number_of_contours)? {
            Some(d) => d,
            None => { return Ok(None); },
        }
    };
    Ok(Some(Glyph { number_of_contours, xmin, ymin, xmax, ymax, glyph_data }))
}

} // verus!
