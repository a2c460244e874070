//! Decoders for the individual tables of a font file.

pub mod offset_sub;
pub mod offset;

pub mod head;
pub mod maxp;
pub mod hhea;
pub mod hmtx;
pub mod loca;
pub mod name;
pub mod cmap;
pub mod glyf;
