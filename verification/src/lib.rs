//! Conversion of constraint-grammar analysed corpus documents into the
//! korp_mono tabular corpus format.
//!
//! The crate holds the pure conversion logic: the year/date normalizer,
//! the sentence flattener that turns an analysis forest into tab-separated
//! records, the document transformer that assembles the output document,
//! the path derivation between the `analysed` and `korp_mono` directory
//! trees, and the status collector that accumulates per-file logs.
//! File discovery, XML (de)serialization and the parallel driver live in
//! the accompanying application, which hands this crate plain values.

pub mod analysed;
pub mod analysis;
pub mod digits;
pub mod korp_mono;
pub mod parse_year;
pub mod process_sentence;
pub mod segments;
pub mod status;
pub mod strings;

pub use digits::u64_to_string;
