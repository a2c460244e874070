use vstd::prelude::*;

verus! {

/// Why a glyph outline was refused.
#[derive(Clone, Copy, Debug, PartialEq, Eq, Structural)]
pub enum GlyphFault {
    /// `numberOfContours` is below -1.
    BadContourCount,
    /// A flag run announced a repeat count of zero.
    ZeroRepeat,
    /// A flag run repeats past the number of points.
    FlagOverrun,
    /// Compound glyphs nest deeper than `maxp.maxComponentDepth`.
    TooDeep,
    /// A component references a glyph that could not be decoded.
    BadComponent,
}

/// Everything that can go wrong while decoding a font.
#[derive(Clone, Copy, Debug, PartialEq, Eq, Structural)]
pub enum FontError {
    /// The underlying file could not be read.
    IoFailure,
    /// A read ran past the end of the buffer.
    UnexpectedEndOfFile,
    /// `head.magicNumber` is not `0x5F0F3CF5`.
    BadMagic,
    /// A table's stored checksum disagrees with its contents.
    ChecksumMismatch { tag: u32 },
    /// A required table is absent from the directory.
    MissingTable { tag: u32 },
    /// The `cmap` subtable format is not one of 0, 2, 4, 6, 8, 10, 12.
    UnsupportedCmapFormat(u16),
    /// A `cmap` encoding record names platform 2 or a platform above 3.
    UnsupportedCmapPlatform(u16),
    /// `hhea.numOfLongHorMetrics` is zero or exceeds `maxp.glyphCount`.
    BadMetricsCount(u16),
    /// `head.indexToLocFormat` is neither 0 nor 1.
    UnsupportedLocaFormat(i16),
    /// A glyph outline is malformed.
    MalformedGlyph { index: u32, detail: GlyphFault },
}

} // verus!
