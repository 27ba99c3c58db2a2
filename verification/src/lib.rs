//! Bijoy (ANSI/ASCII) Bengali to Unicode Bengali conversion: transliteration,
//! run classification, the per-run conversion policy, and the OOXML run
//! walkers used by the DOCX and PPTX adapters.

pub mod archive;
pub mod bindings;
pub mod classifier;
pub mod data;
pub mod docx;
pub mod encoding;
pub mod english;
pub mod fonts;
pub mod mapping;
pub mod normalize;
pub mod ooxml;
pub mod policy;
pub mod pptx;
pub mod styles;
pub mod text;
pub mod theme;
pub mod transliterate;
pub mod visitor;
pub mod xml;
