//! The decoded analysed document: the header metadata of the input xml
//! file, and its body — first as the raw analysis blob, then, once the
//! external analysis parser has run, as the owned analysis forest.

use vstd::prelude::*;

use crate::analysis::Sentence;

verus! {

/// `<genre code="facta"/>`
pub struct Genre {
    pub code: String,
}

/// One `<person>` of the author list. All attributes are optional.
pub struct Person {
    pub firstname: Option<String>,
    pub lastname: Option<String>,
    pub sex: Option<String>,
    pub born: Option<String>,
    pub nationality: Option<String>,
}

/// `<author><person ... /></author>`
pub struct Author {
    pub person: Person,
}

/// `<conversion_status type="standard"/>`; `kind` holds the `type`
/// attribute.
pub struct ConversationStatus {
    pub kind: Option<String>,
}

/// `<license type="standard"/>`; `kind` holds the `type` attribute.
pub struct License {
    pub kind: Option<String>,
}

/// `<availability><license type="standard"/></availability>`
pub struct Availability {
    pub license: Option<License>,
}

/// `<parallel_text xml:lang="nob" location="..."/>`
pub struct ParallelText {
    pub lang: Option<String>,
    pub location: Option<String>,
}

/// The header block of an analysed document.
pub struct Header {
    pub title: Option<String>,
    pub genre: Option<Genre>,
    pub authors: Option<Vec<Person>>,
    pub year: Option<String>,
    pub conversion_status: ConversationStatus,
    pub availability: Availability,
    pub orig_file_name: Option<String>,
    pub translated_from: Option<String>,
    pub parallel_text: Option<Vec<ParallelText>>,
}

/// The body of an analysed document before the analysis blob is parsed:
/// the raw constraint-grammar analysis text.
pub struct Body {
    pub dependency: String,
}

/// An analysed document as decoded from xml, its analysis blob still
/// unparsed.
pub struct UnparsedAnalysedDocument {
    pub lang: Option<String>,
    pub header: Header,
    pub body: Body,
}

/// The body once the external analysis parser has run: the raw blob is
/// kept, and the parsed forest stands beside it — `None` when the blob
/// could not be parsed.
pub struct ParsedBody {
    pub dependency: String,
    pub sentences: Option<Vec<Sentence>>,
}

/// An analysed document whose analysis blob has been handed to the
/// external parser.
pub struct ParsedAnalysedDocument {
    pub lang: Option<String>,
    pub header: Header,
    pub body: ParsedBody,
}

} // verus!
