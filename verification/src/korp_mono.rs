//! The korp_mono side of the corpus: the derived output paths, and the
//! output document built from a parsed analysed document.

pub mod file;
pub mod path;
