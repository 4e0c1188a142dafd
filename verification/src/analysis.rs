//! The owned model of a parsed constraint-grammar analysis forest.
//!
//! The external analysis-blob parser produces, per sentence, a forest of
//! words; a word may be realized by several tokens (compound
//! decomposition), and a token carries zero or more candidate analyses.
//! The application converts the parser's output into these owned values
//! before handing them to the verified conversion logic.

use vstd::prelude::*;

verus! {

/// One candidate reading of a token: its part-of-speech tag, the full
/// ordered tag list (part-of-speech included), an optional dependency
/// function label as the parser wrote it, and an optional
/// (self-index, parent-index) dependency pair.
pub struct Analysis {
    pub pos: String,
    pub tags: Vec<String>,
    pub func: Option<String>,
    pub deprel: Option<(u64, u64)>,
}

/// One surface realization unit within a word: the surface form, the
/// resolved lemma if the candidate analyses yield one, and the ordered
/// candidate analyses.
pub struct Token {
    pub word_form: String,
    pub lemma: Option<String>,
    pub analyses: Vec<Analysis>,
}

/// One word of a sentence, realized by one or more tokens.
pub struct Word {
    pub tokens: Vec<Token>,
}

/// One sentence of the analysis forest: an ordered sequence of words.
pub struct Sentence {
    pub words: Vec<Word>,
}

} // verus!
