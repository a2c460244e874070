//! A read-only decoder for TrueType (`sfnt`) font files.
//!
//! The byte cursor and its numeric conventions live in `reader`, the table
//! decoders (glyph outlines included) in `tables`, and the font assembly in
//! `truetype`.

pub mod error;
pub mod reader;
pub mod tables;
pub mod truetype;
