//! The analysed side of the corpus: paths inside a
//! `corpus-xxx/analysed` tree, and the decoded analysed document.

pub mod file;
pub mod path;
